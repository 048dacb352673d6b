//! Requests to the device service, from the payload to the response.
//!
//! Adding a device has to wait for its volume to open, and removing one for its task to stop. Both
//! are done in two halves, with the wait in between; no other mutating request is handled
//! meanwhile.
use crate::control::fingerprint;
use crate::control::protocol::{
    AddDeviceRequest, ControlRequest, ErrorCode, Operation, ProtocolError, RemoveDeviceRequest,
    RequestBody, RequestEnvelope, ResponseEnvelope, ResponseView,
};
use crate::control::protocol;
use crate::errors::{TransportError, TransportErrorView};
use crate::session::{RetryConfig, VolumeSessionConfig};
use crate::text;
use crate::time::Duration;
use crate::ublk::device;
use crate::ublk::manager::{ControlManager, RemovePreparation};
use crate::ublk::registry::{Registry, RemovePreparationView};
use crate::ublk::registry;
use vstd::prelude::*;

verus! {

/// How the service is set up.
#[derive(Debug)]
pub struct ServeConfig {
    pub control_socket: String,
    pub max_devices: usize,
    pub terminal_history_limit: usize,
    pub idempotency_cache_limit: usize,
    pub ready_file: Option<String>,
    pub frontend_endpoint: String,
    pub namespace: String,
    pub connect_timeout: Duration,
    pub rpc_timeout: Duration,
    pub retry_max_attempts: usize,
    pub retry_initial_backoff: Duration,
    pub retry_max_backoff: Duration,
    pub graceful_drain_timeout: Duration,
    pub force_detach_timeout: Duration,
}

impl Clone for ServeConfig {
    fn clone(&self) -> (r: Self)
        ensures
            r == *self,
    {
        ServeConfig {
            control_socket: self.control_socket.clone(),
            max_devices: self.max_devices,
            terminal_history_limit: self.terminal_history_limit,
            idempotency_cache_limit: self.idempotency_cache_limit,
            ready_file: device::copy_text(&self.ready_file),
            frontend_endpoint: self.frontend_endpoint.clone(),
            namespace: self.namespace.clone(),
            connect_timeout: self.connect_timeout,
            rpc_timeout: self.rpc_timeout,
            retry_max_attempts: self.retry_max_attempts,
            retry_initial_backoff: self.retry_initial_backoff,
            retry_max_backoff: self.retry_max_backoff,
            graceful_drain_timeout: self.graceful_drain_timeout,
            force_detach_timeout: self.force_detach_timeout,
        }
    }
}

impl Default for ServeConfig {
    fn default() -> (r: Self)
        ensures
            r.control_socket@ == "/tmp/temporal-ublk.sock"@,
            r.max_devices == 64,
            r.terminal_history_limit == 256,
            r.idempotency_cache_limit == 2048,
            r.ready_file is None,
            r.frontend_endpoint@ == "127.0.0.1:7233"@,
            r.namespace@ == "default"@,
            r.connect_timeout@ == 5_000_000_000,
            r.rpc_timeout@ == 5_000_000_000,
            r.retry_max_attempts == 8,
            r.retry_initial_backoff@ == 150_000_000,
            r.retry_max_backoff@ == 2_000_000_000,
            r.graceful_drain_timeout@ == 20_000_000_000,
            r.force_detach_timeout@ == 10_000_000_000,
    {
        ServeConfig {
            control_socket: "/tmp/temporal-ublk.sock".to_owned(),
            max_devices: 64,
            terminal_history_limit: 256,
            idempotency_cache_limit: 2048,
            ready_file: None,
            frontend_endpoint: "127.0.0.1:7233".to_owned(),
            namespace: "default".to_owned(),
            connect_timeout: Duration::from_secs(5),
            rpc_timeout: Duration::from_secs(5),
            retry_max_attempts: 8,
            retry_initial_backoff: Duration::from_millis(150),
            retry_max_backoff: Duration::from_millis(2000),
            graceful_drain_timeout: Duration::from_secs(20),
            force_detach_timeout: Duration::from_secs(10),
        }
    }
}

/// How to reach the volume of a device.
pub fn build_session_config(config: &ServeConfig, volume_id: &str) -> (r: VolumeSessionConfig)
    ensures
        r.frontend_endpoint@ == config.frontend_endpoint@,
        r.namespace@ == config.namespace@,
        r.volume_id@ == volume_id@,
        r.connect_timeout == config.connect_timeout,
        r.rpc_timeout == config.rpc_timeout,
        r.retry.max_attempts == config.retry_max_attempts,
        r.retry.initial_backoff == config.retry_initial_backoff,
        r.retry.max_backoff == config.retry_max_backoff,
{
    VolumeSessionConfig {
        frontend_endpoint: config.frontend_endpoint.clone(),
        namespace: config.namespace.clone(),
        volume_id: volume_id.to_owned(),
        connect_timeout: config.connect_timeout,
        rpc_timeout: config.rpc_timeout,
        retry: RetryConfig {
            max_attempts: config.retry_max_attempts,
            initial_backoff: config.retry_initial_backoff,
            max_backoff: config.retry_max_backoff,
        },
    }
}

/// Why a device could not be started.
#[derive(Debug)]
pub struct RuntimeStartError {
    pub code: ErrorCode,
    pub message: String,
}

/// What a `RuntimeStartError` holds.
pub struct RuntimeStartErrorView {
    pub code: ErrorCode,
    pub message: Seq<char>,
}

impl View for RuntimeStartError {
    type V = RuntimeStartErrorView;

    open spec fn view(&self) -> RuntimeStartErrorView {
        RuntimeStartErrorView { code: self.code, message: self.message@ }
    }
}

/// A device whose volume cannot be opened.
pub fn map_open_error(volume_id: &str, error: TransportError) -> (r: RuntimeStartError)
    ensures
        r@ == match error@ {
            TransportErrorView::Retryable(m) => RuntimeStartErrorView {
                code: ErrorCode::Unavailable,
                message: "failed to open volume '"@ + volume_id@ + "' (retryable): "@ + m,
            },
            TransportErrorView::Terminal(m) => RuntimeStartErrorView {
                code: ErrorCode::Internal,
                message: "failed to open volume '"@ + volume_id@ + "' (terminal): "@ + m,
            },
        },
{
    match error {
        TransportError::Retryable { message } => RuntimeStartError {
            code: ErrorCode::Unavailable,
            message: text::cat4(
                "failed to open volume '",
                volume_id,
                "' (retryable): ",
                message.as_str(),
            ),
        },
        TransportError::Terminal { message } => RuntimeStartError {
            code: ErrorCode::Internal,
            message: text::cat4(
                "failed to open volume '",
                volume_id,
                "' (terminal): ",
                message.as_str(),
            ),
        },
    }
}

/// A device whose task ended without a word.
pub fn startup_dropped(detail: &str) -> (r: RuntimeStartError)
    ensures
        r@ == (RuntimeStartErrorView {
            code: ErrorCode::Internal,
            message: "runtime startup channel dropped: "@ + detail@,
        }),
{
    RuntimeStartError {
        code: ErrorCode::Internal,
        message: text::cat2("runtime startup channel dropped: ", detail),
    }
}

/// How long to wait for the task of a device to stop.
pub fn stop_timeout(config: &ServeConfig, force: bool) -> (r: Duration)
    ensures
        r == if force {
            config.force_detach_timeout
        } else {
            config.graceful_drain_timeout
        },
{
    if force {
        config.force_detach_timeout
    } else {
        config.graceful_drain_timeout
    }
}

/// A mutating request that is being handled.
#[derive(Debug)]
pub struct PendingRequest {
    pub request_id: String,
    pub idempotency_key: String,
    pub fingerprint: Vec<u8>,
}

/// What a `PendingRequest` holds.
pub struct PendingView {
    pub request_id: Seq<char>,
    pub key: Seq<char>,
    pub fingerprint: Seq<u8>,
}

impl View for PendingRequest {
    type V = PendingView;

    open spec fn view(&self) -> PendingView {
        PendingView {
            request_id: self.request_id@,
            key: self.idempotency_key@,
            fingerprint: self.fingerprint@,
        }
    }
}

/// A device that waits for its volume to open.
#[derive(Debug)]
pub struct PendingAdd {
    pub request: PendingRequest,
    pub device_id: u32,
    pub volume_id: String,
}

/// A device that waits for its task to stop.
#[derive(Debug)]
pub struct PendingRemove {
    pub request: PendingRequest,
    pub device_id: u32,
    pub force: bool,
}

/// What to do next for a request.
#[derive(Debug)]
pub enum RequestStep {
    /// Answer it.
    Respond(ResponseEnvelope),
    /// Start a device.
    Start(PendingAdd),
    /// Stop a device.
    Stop(PendingRemove),
}

/// What a `RequestStep` holds.
pub enum RequestStepView {
    Respond(ResponseView),
    Start { request: PendingView, device_id: u32, volume_id: Seq<char> },
    Stop { request: PendingView, device_id: u32, force: bool },
}

impl View for RequestStep {
    type V = RequestStepView;

    open spec fn view(&self) -> RequestStepView {
        match self {
            RequestStep::Respond(response) => RequestStepView::Respond(response@),
            RequestStep::Start(p) => RequestStepView::Start {
                request: p.request@,
                device_id: p.device_id,
                volume_id: p.volume_id@,
            },
            RequestStep::Stop(p) => RequestStepView::Stop {
                request: p.request@,
                device_id: p.device_id,
                force: p.force,
            },
        }
    }
}

/// The registry once the outcome of a request is kept.
pub open spec fn concluded(
    reg: Registry,
    request: PendingView,
    op: Operation,
    response: ResponseView,
) -> Registry {
    registry::remembered(reg, request.key, op, request.fingerprint, response)
}

/// The first half of adding a device.
pub open spec fn add_begun(reg: Registry, request: PendingView, body: AddDeviceRequest) -> (
    Registry,
    RequestStepView,
) {
    match registry::known_answer(
        reg,
        request.request_id,
        request.key,
        Operation::AddDevice,
        request.fingerprint,
    ) {
        Some(response) => (reg, RequestStepView::Respond(response)),
        None => {
            let (reserved, outcome) = registry::reserve(reg, request.request_id, body);
            match outcome {
                Err(response) => (
                    concluded(reserved, request, Operation::AddDevice, response),
                    RequestStepView::Respond(response),
                ),
                Ok(reservation) => {
                    let (opening, outcome) = registry::opening(reserved, reservation.device_id);
                    match outcome {
                        Err(response) => (
                            concluded(opening, request, Operation::AddDevice, response),
                            RequestStepView::Respond(response),
                        ),
                        Ok(()) => (
                            opening,
                            RequestStepView::Start {
                                request,
                                device_id: reservation.device_id,
                                volume_id: reservation.volume_id,
                            },
                        ),
                    }
                },
            }
        },
    }
}

/// The second half of adding a device.
pub open spec fn add_finished(
    reg: Registry,
    request: PendingView,
    device_id: u32,
    started: Result<(), RuntimeStartErrorView>,
) -> (Registry, ResponseView) {
    let (after, response) = match started {
        Ok(()) => registry::added(reg, request.request_id, device_id),
        Err(e) => registry::add_failed(reg, request.request_id, device_id, e.code, e.message),
    };
    (concluded(after, request, Operation::AddDevice, response), response)
}

/// The first half of removing a device.
pub open spec fn remove_begun(reg: Registry, request: PendingView, body: RemoveDeviceRequest) -> (
    Registry,
    RequestStepView,
) {
    match registry::known_answer(
        reg,
        request.request_id,
        request.key,
        Operation::RemoveDevice,
        request.fingerprint,
    ) {
        Some(response) => (reg, RequestStepView::Respond(response)),
        None => {
            let (prepared, preparation) = registry::draining(reg, request.request_id, body);
            match preparation {
                RemovePreparationView::Immediate(response) => (
                    concluded(prepared, request, Operation::RemoveDevice, response),
                    RequestStepView::Respond(response),
                ),
                RemovePreparationView::Draining { device_id, force, .. } => (
                    prepared,
                    RequestStepView::Stop { request, device_id, force },
                ),
            }
        },
    }
}

/// The second half of removing a device. One whose task did not stop in time is detached by force.
pub open spec fn remove_finished(
    reg: Registry,
    request: PendingView,
    device_id: u32,
    force: bool,
    timed_out: bool,
) -> (Registry, ResponseView) {
    let (after, response) = registry::removed(
        reg,
        request.request_id,
        device_id,
        force || timed_out,
    );
    (concluded(after, request, Operation::RemoveDevice, response), response)
}

fn begin_add(manager: &mut ControlManager, request: PendingRequest, body: AddDeviceRequest) -> (step:
    RequestStep)
    requires
        old(manager).wf(),
    ensures
        final(manager).wf(),
        (final(manager)@, step@) == add_begun(old(manager)@, request@, body),
{
    match manager.lookup_cached_mutating_outcome(
        request.request_id.clone(),
        &request.idempotency_key,
        Operation::AddDevice,
        request.fingerprint.as_slice(),
    ) {
        Some(response) => {
            return RequestStep::Respond(response);
        },
        None => {},
    }
    match manager.reserve_add_device(request.request_id.clone(), &body) {
        Err(response) => {
            manager.cache_mutating_outcome(
                request.idempotency_key,
                Operation::AddDevice,
                request.fingerprint,
                &response,
            );
            RequestStep::Respond(response)
        },
        Ok(reservation) => match manager.mark_device_opening(reservation.device_id) {
            Err(response) => {
                manager.cache_mutating_outcome(
                    request.idempotency_key,
                    Operation::AddDevice,
                    request.fingerprint,
                    &response,
                );
                RequestStep::Respond(response)
            },
            Ok(()) => RequestStep::Start(
                PendingAdd {
                    request,
                    device_id: reservation.device_id,
                    volume_id: reservation.volume_id,
                },
            ),
        },
    }
}

/// What came of adding a device.
#[derive(Debug)]
pub struct FinishedAdd {
    pub response: ResponseEnvelope,
    /// Whether the device was started but must be stopped again, by force.
    pub stop_runtime: bool,
}

/// What the start of a device came to.
pub open spec fn started_view(started: Result<(), RuntimeStartError>) -> Result<
    (),
    RuntimeStartErrorView,
> {
    match started {
        Ok(()) => Ok(()),
        Err(e) => Err(e@),
    }
}

/// Ends the adding of a device with whether it could be started.
pub fn finish_add(
    manager: &mut ControlManager,
    pending: PendingAdd,
    started: Result<(), RuntimeStartError>,
) -> (r: FinishedAdd)
    requires
        old(manager).wf(),
    ensures
        final(manager).wf(),
        (final(manager)@, r.response@) == add_finished(
            old(manager)@,
            pending.request@,
            pending.device_id,
            started_view(started),
        ),
        r.stop_runtime == (started is Ok && !r.response@.ok),
{
    let request: PendingRequest = pending.request;
    let (response, stop_runtime): (ResponseEnvelope, bool) = match started {
        Ok(()) => {
            let response: ResponseEnvelope = manager.finalize_add_success(
                request.request_id,
                pending.device_id,
            );
            let stop: bool = !response.ok;
            (response, stop)
        },
        Err(e) => (
            manager.fail_add_device(request.request_id, pending.device_id, e.code, e.message),
            false,
        ),
    };
    manager.cache_mutating_outcome(
        request.idempotency_key,
        Operation::AddDevice,
        request.fingerprint,
        &response,
    );
    FinishedAdd { response, stop_runtime }
}

fn begin_remove(
    manager: &mut ControlManager,
    request: PendingRequest,
    body: RemoveDeviceRequest,
) -> (step: RequestStep)
    requires
        old(manager).wf(),
    ensures
        final(manager).wf(),
        (final(manager)@, step@) == remove_begun(old(manager)@, request@, body),
{
    match manager.lookup_cached_mutating_outcome(
        request.request_id.clone(),
        &request.idempotency_key,
        Operation::RemoveDevice,
        request.fingerprint.as_slice(),
    ) {
        Some(response) => {
            return RequestStep::Respond(response);
        },
        None => {},
    }
    match manager.prepare_remove_device(request.request_id.clone(), &body) {
        RemovePreparation::Immediate(response) => {
            manager.cache_mutating_outcome(
                request.idempotency_key,
                Operation::RemoveDevice,
                request.fingerprint,
                &response,
            );
            RequestStep::Respond(response)
        },
        RemovePreparation::Draining { device_id, volume_id: _, force } => RequestStep::Stop(
            PendingRemove { request, device_id, force },
        ),
    }
}

/// Ends the removing of a device with whether its task failed to stop in time.
pub fn finish_remove(manager: &mut ControlManager, pending: PendingRemove, timed_out: bool) -> (r:
    ResponseEnvelope)
    requires
        old(manager).wf(),
    ensures
        final(manager).wf(),
        (final(manager)@, r@) == remove_finished(
            old(manager)@,
            pending.request@,
            pending.device_id,
            pending.force,
            timed_out,
        ),
{
    let request: PendingRequest = pending.request;
    let response: ResponseEnvelope = manager.complete_remove_device(
        request.request_id,
        pending.device_id,
        pending.force || timed_out,
    );
    manager.cache_mutating_outcome(
        request.idempotency_key,
        Operation::RemoveDevice,
        request.fingerprint,
        &response,
    );
    response
}

/// What a mutating request is known by.
pub open spec fn pending_of(request: ControlRequest) -> PendingView {
    PendingView {
        request_id: request.request_id@,
        key: registry::key_of(request),
        fingerprint: fingerprint::fingerprint(request.body),
    }
}

/// Whether a request took the registry from `before` to `after` with `step` to do.
pub open spec fn begun(
    before: Registry,
    request: ControlRequest,
    after: Registry,
    step: RequestStepView,
) -> bool {
    match request.body {
        RequestBody::AddDevice(body) => (after, step) == add_begun(
            before,
            pending_of(request),
            body,
        ),
        RequestBody::RemoveDevice(body) => (after, step) == remove_begun(
            before,
            pending_of(request),
            body,
        ),
        RequestBody::ListDevices(body) => {
            &&& after == before
            &&& step matches RequestStepView::Respond(response)
            &&& registry::is_listing(before, request.request_id@, body, response)
        },
        RequestBody::Health(_) => {
            &&& after == before
            &&& step matches RequestStepView::Respond(response)
            &&& registry::health_answered(before, request.request_id@, response)
        },
    }
}

/// Starts to handle a request.
pub fn process_request(manager: &mut ControlManager, request: ControlRequest) -> (step: RequestStep)
    requires
        old(manager).wf(),
    ensures
        final(manager).wf(),
        begun(old(manager)@, request, final(manager)@, step@),
{
    let fingerprint: Vec<u8> = match request.body_fingerprint() {
        Ok(bytes) => bytes,
        Err(_) => Vec::new(),
    };
    let idempotency_key: String = match request.idempotency_key {
        Some(key) => key,
        None => String::new(),
    };
    let request_id: String = request.request_id;
    match request.body {
        RequestBody::AddDevice(body) => begin_add(
            manager,
            PendingRequest { request_id, idempotency_key, fingerprint },
            body,
        ),
        RequestBody::RemoveDevice(body) => begin_remove(
            manager,
            PendingRequest { request_id, idempotency_key, fingerprint },
            body,
        ),
        RequestBody::ListDevices(body) => RequestStep::Respond(
            manager.list_devices(request_id, body),
        ),
        RequestBody::Health(_) => RequestStep::Respond(manager.health(request_id)),
    }
}

/// Whether a payload that was read as `payload` took the registry from `before` to `after` with
/// `step` to do: what was not understood is answered at once, and changes nothing.
pub open spec fn payload_begun(
    before: Registry,
    payload: Result<RequestEnvelope, String>,
    after: Registry,
    step: RequestStepView,
) -> bool {
    exists|decoded: Result<ControlRequest, ProtocolError>| #[trigger]
        protocol::is_decoded(payload, decoded) && match decoded {
            Ok(request) => begun(before, request, after, step),
            Err(e) => after == before && step == RequestStepView::Respond(
                protocol::refusal(e@),
            ),
        }
}

/// Starts to handle a payload.
pub fn handle_payload(manager: &mut ControlManager, payload: Result<RequestEnvelope, String>) -> (step:
    RequestStep)
    requires
        old(manager).wf(),
    ensures
        final(manager).wf(),
        payload_begun(old(manager)@, payload, final(manager)@, step@),
{
    let decoded: Result<ControlRequest, ProtocolError> = protocol::decode_request(payload);
    let ghost understood = decoded;
    assert(protocol::is_decoded(payload, understood));
    match decoded {
        Ok(request) => process_request(manager, request),
        Err(e) => RequestStep::Respond(ResponseEnvelope::from_protocol_error(e)),
    }
}

/// What ends a turn of the loop that accepts connections.
#[derive(Clone, Copy, Debug, PartialEq, Eq, Structural)]
pub enum ServeEvent {
    /// A caller connected.
    Accepted,
    /// A caller could not be accepted.
    AcceptFailed,
    /// The process is to stop.
    Signal,
}

/// What the loop that accepts connections does next.
#[derive(Clone, Copy, Debug, PartialEq, Eq, Structural)]
pub enum ServeAction {
    /// Serve the caller, and wait for the next one.
    Serve,
    /// Wait for the next caller.
    Continue,
    /// Let the callers finish, stop all devices, and leave.
    ShutDown,
}

/// What the loop that accepts connections does after `event`. A caller that could not be accepted
/// does not end the service.
pub fn next_serve_action(event: ServeEvent) -> (r: ServeAction)
    ensures
        r == match event {
            ServeEvent::Accepted => ServeAction::Serve,
            ServeEvent::AcceptFailed => ServeAction::Continue,
            ServeEvent::Signal => ServeAction::ShutDown,
        },
{
    match event {
        ServeEvent::Accepted => ServeAction::Serve,
        ServeEvent::AcceptFailed => ServeAction::Continue,
        ServeEvent::Signal => ServeAction::ShutDown,
    }
}

/// The fields of an event, each after a space.
pub open spec fn field_list(fields: Seq<(String, String)>) -> Seq<char>
    decreases fields.len(),
{
    if fields.len() == 0 {
        Seq::empty()
    } else {
        field_list(fields.drop_last()) + " "@ + fields.last().0@ + "="@ + fields.last().1@
    }
}

/// The line that records an event.
pub fn event_line(level: &str, event: &str, fields: &Vec<(String, String)>) -> (r: String)
    ensures
        r@ == "level="@ + level@ + " event="@ + event@ + field_list(fields@),
{
    let mut line: String = text::cat4("level=", level, " event=", event);
    let ghost head = line@;
    let mut i: usize = 0;
    assert(head + field_list(fields@.subrange(0, 0)) =~= head);
    while i < fields.len()
        invariant
            i <= fields@.len(),
            line@ == head + field_list(fields@.subrange(0, i as int)),
        decreases fields@.len() - i,
    {
        let ghost more = fields@.subrange(0, i + 1);
        assert(more.drop_last() =~= fields@.subrange(0, i as int));
        line.append(" ");
        line.append(fields[i].0.as_str());
        line.append("=");
        line.append(fields[i].1.as_str());
        assert(line@ =~= head + field_list(more));
        i = i + 1;
    }
    assert(fields@.subrange(0, fields@.len() as int) =~= fields@);
    line
}

} // verus!
