//! Creating a volume.
use crate::endpoint;
use crate::rpc::{Code, RpcReply};
use crate::rpc;
use crate::text;
use crate::time::Duration;
use vstd::prelude::*;

verus! {

/// The volume to create, and where.
#[derive(Debug)]
pub struct CreateVolumeConfig {
    pub frontend_endpoint: String,
    pub namespace: String,
    pub volume_id: String,
    pub size_bytes: u64,
    pub block_size_bytes: u32,
    pub connect_timeout: Duration,
    pub rpc_timeout: Duration,
    pub request_id: Option<String>,
    pub if_not_exists: bool,
}

impl Clone for CreateVolumeConfig {
    fn clone(&self) -> (r: Self)
        ensures
            r == *self,
    {
        CreateVolumeConfig {
            frontend_endpoint: self.frontend_endpoint.clone(),
            namespace: self.namespace.clone(),
            volume_id: self.volume_id.clone(),
            size_bytes: self.size_bytes,
            block_size_bytes: self.block_size_bytes,
            connect_timeout: self.connect_timeout,
            rpc_timeout: self.rpc_timeout,
            request_id: match &self.request_id {
                Some(id) => Some(id.clone()),
                None => None,
            },
            if_not_exists: self.if_not_exists,
        }
    }
}

/// What came of it.
#[derive(Debug, PartialEq, Eq)]
pub enum CreateVolumeOutcome {
    Created { run_id: String },
    AlreadyExists,
}

impl Clone for CreateVolumeOutcome {
    fn clone(&self) -> (r: Self)
        ensures
            r == *self,
    {
        match self {
            CreateVolumeOutcome::Created { run_id } => CreateVolumeOutcome::Created {
                run_id: run_id.clone(),
            },
            CreateVolumeOutcome::AlreadyExists => CreateVolumeOutcome::AlreadyExists,
        }
    }
}

/// What a `CreateVolumeOutcome` holds.
pub enum CreateVolumeOutcomeView {
    Created(Seq<char>),
    AlreadyExists,
}

impl View for CreateVolumeOutcome {
    type V = CreateVolumeOutcomeView;

    open spec fn view(&self) -> CreateVolumeOutcomeView {
        match self {
            CreateVolumeOutcome::Created { run_id } => CreateVolumeOutcomeView::Created(run_id@),
            CreateVolumeOutcome::AlreadyExists => CreateVolumeOutcomeView::AlreadyExists,
        }
    }
}

/// The request that creates a volume.
#[derive(Debug)]
pub struct CreateVolumeRequest {
    pub namespace: String,
    pub volume_id: String,
    pub size_bytes: i64,
    pub block_size_bytes: i32,
    pub request_id: String,
}

/// The answer to it.
#[derive(Debug)]
pub struct CreateVolumeResponse {
    pub volume_id: String,
    pub run_id: String,
}

/// Why a volume cannot be asked for, if it cannot.
pub open spec fn request_error(size_bytes: u64, block_size_bytes: u32) -> Option<Seq<char>> {
    if size_bytes > i64::MAX {
        Some("size_bytes must be <= i64::MAX"@)
    } else if block_size_bytes > i32::MAX {
        Some("block_size_bytes must be <= i32::MAX"@)
    } else {
        None
    }
}

/// The request that creates the configured volume.
pub fn build_create_volume_request(config: &CreateVolumeConfig, request_id: String) -> (r: Result<
    CreateVolumeRequest,
    String,
>)
    ensures
        match r {
            Ok(request) => {
                &&& request_error(config.size_bytes, config.block_size_bytes) is None
                &&& request.namespace@ == config.namespace@
                &&& request.volume_id@ == config.volume_id@
                &&& request.size_bytes == config.size_bytes
                &&& request.block_size_bytes == config.block_size_bytes
                &&& request.request_id@ == request_id@
            },
            Err(e) => request_error(config.size_bytes, config.block_size_bytes) == Some(e@),
        },
{
    if config.size_bytes > i64::MAX as u64 {
        return Err("size_bytes must be <= i64::MAX".to_owned());
    }
    if config.block_size_bytes > i32::MAX as u32 {
        return Err("block_size_bytes must be <= i32::MAX".to_owned());
    }
    Ok(
        CreateVolumeRequest {
            namespace: config.namespace.clone(),
            volume_id: config.volume_id.clone(),
            size_bytes: config.size_bytes as i64,
            block_size_bytes: config.block_size_bytes as i32,
            request_id,
        },
    )
}

/// What is wrong with the answer, if something is.
pub open spec fn response_error(
    response: CreateVolumeResponse,
    expected_volume_id: Seq<char>,
) -> Option<Seq<char>> {
    if response.volume_id@ != expected_volume_id {
        Some(
            "CreateVolume returned unexpected volume_id: got "@ + response.volume_id@ + ", want "@
                + expected_volume_id,
        )
    } else if response.run_id@.len() == 0 {
        Some("CreateVolume returned empty run_id"@)
    } else {
        None
    }
}

/// Checks the answer: it is about the volume that was asked for, and names a run.
pub fn validate_create_volume_response(
    response: &CreateVolumeResponse,
    expected_volume_id: &String,
) -> (r: Result<(), String>)
    ensures
        match r {
            Ok(()) => response_error(*response, expected_volume_id@) is None,
            Err(e) => response_error(*response, expected_volume_id@) == Some(e@),
        },
{
    if response.volume_id != *expected_volume_id {
        return Err(
            text::cat4(
                "CreateVolume returned unexpected volume_id: got ",
                response.volume_id.as_str(),
                ", want ",
                expected_volume_id.as_str(),
            ),
        );
    }
    if response.run_id.as_str().unicode_len() == 0 {
        return Err("CreateVolume returned empty run_id".to_owned());
    }
    Ok(())
}

/// The request identifier of a call that was given none: it names the process and the time in
/// nanoseconds since the epoch.
pub fn default_request_id(process_id: u32, nanos_since_epoch: u128) -> (r: String)
    ensures
        r@ == "temporal-nbd-create-"@ + text::decimal(process_id as nat) + "-"@ + text::decimal(
            nanos_since_epoch as nat,
        ),
{
    text::cat4(
        "temporal-nbd-create-",
        text::decimal_u64(process_id as u64).as_str(),
        "-",
        text::decimal_u128(nanos_since_epoch).as_str(),
    )
}

/// What came of connecting to the service.
#[derive(Debug)]
pub enum ConnectOutcome {
    Connected,
    /// The address is not one that can be connected to.
    InvalidEndpoint,
    /// The connection failed.
    Failed,
}

/// A volume on its way to be created.
#[derive(Debug)]
pub struct CreateTask {
    pub config: CreateVolumeConfig,
    pub endpoint_url: String,
}

/// What to do next to create a volume.
#[derive(Debug)]
pub enum CreateStep {
    /// Connect to the service.
    Connect(CreateTask),
    /// Send the request.
    Call(CreateTask, CreateVolumeRequest),
    /// It is over; an error is what to report.
    Done(Result<CreateVolumeOutcome, String>),
}

/// Whether `step` ends with this report.
pub open spec fn fails_with(step: CreateStep, message: Seq<char>) -> bool {
    step matches CreateStep::Done(result) && result matches Err(e) && e@ == message
}

/// Whether `step` ends with this outcome.
pub open spec fn ends_with(step: CreateStep, outcome: CreateVolumeOutcomeView) -> bool {
    step matches CreateStep::Done(result) && result matches Ok(o) && o@ == outcome
}

/// Starts to create a volume.
pub fn run_create_volume(config: CreateVolumeConfig) -> (step: CreateStep)
    ensures
        if config.size_bytes == 0 {
            fails_with(step, "size_bytes must be > 0"@)
        } else {
            step matches CreateStep::Connect(task) && task.config == config && task.endpoint_url@
                == endpoint::normalized(config.frontend_endpoint@)
        },
{
    if config.size_bytes == 0 {
        return CreateStep::Done(Err("size_bytes must be > 0".to_owned()));
    }
    let endpoint_url: String = endpoint::normalize_endpoint(config.frontend_endpoint.as_str());
    CreateStep::Connect(CreateTask { config, endpoint_url })
}

/// Whether `step` sends the request for `task` under `request_id`.
pub open spec fn sends(step: CreateStep, task: CreateTask, request_id: Seq<char>) -> bool {
    step matches CreateStep::Call(t, request) && {
        &&& t == task
        &&& request.namespace@ == task.config.namespace@
        &&& request.volume_id@ == task.config.volume_id@
        &&& request.size_bytes == task.config.size_bytes
        &&& request.block_size_bytes == task.config.block_size_bytes
        &&& request.request_id@ == request_id
    }
}

/// Carries the creation of a volume on with what came of connecting. `fallback_request_id` is used
/// where the caller has none of its own.
pub fn on_connected(task: CreateTask, outcome: ConnectOutcome, fallback_request_id: String) -> (step:
    CreateStep)
    ensures
        match outcome {
            ConnectOutcome::InvalidEndpoint => fails_with(
                step,
                "invalid frontend endpoint: "@ + task.endpoint_url@,
            ),
            ConnectOutcome::Failed => fails_with(
                step,
                "failed to connect to frontend endpoint: "@ + task.endpoint_url@,
            ),
            ConnectOutcome::Connected => match request_error(
                task.config.size_bytes,
                task.config.block_size_bytes,
            ) {
                Some(message) => fails_with(step, message),
                None => sends(
                    step,
                    task,
                    match task.config.request_id {
                        Some(id) => id@,
                        None => fallback_request_id@,
                    },
                ),
            },
        },
{
    match outcome {
        ConnectOutcome::InvalidEndpoint => CreateStep::Done(
            Err(text::cat2("invalid frontend endpoint: ", task.endpoint_url.as_str())),
        ),
        ConnectOutcome::Failed => CreateStep::Done(
            Err(text::cat2("failed to connect to frontend endpoint: ", task.endpoint_url.as_str())),
        ),
        ConnectOutcome::Connected => {
            let request_id: String = match &task.config.request_id {
                Some(id) => id.clone(),
                None => fallback_request_id,
            };
            match build_create_volume_request(&task.config, request_id) {
                Ok(request) => CreateStep::Call(task, request),
                Err(e) => CreateStep::Done(Err(e)),
            }
        },
    }
}

/// Ends the creation of a volume with what came of the call. That the volume exists already is no
/// failure where the caller said so.
pub fn on_reply(task: CreateTask, reply: RpcReply<CreateVolumeResponse>) -> (step: CreateStep)
    ensures
        match reply {
            RpcReply::TimedOut => fails_with(
                step,
                "CreateVolume timed out after "@ + text::decimal(
                    task.config.rpc_timeout@ / 1_000_000_000,
                ) + "s"@,
            ),
            RpcReply::Answer(response) => match response_error(response, task.config.volume_id@) {
                Some(message) => fails_with(step, message),
                None => ends_with(step, CreateVolumeOutcomeView::Created(response.run_id@)),
            },
            RpcReply::Status { code, message } => if code == Code::AlreadyExists
                && task.config.if_not_exists {
                ends_with(step, CreateVolumeOutcomeView::AlreadyExists)
            } else {
                fails_with(step, rpc::status_text("CreateVolume"@, code, message@))
            },
        },
{
    match reply {
        RpcReply::TimedOut => CreateStep::Done(
            Err(
                text::cat3(
                    "CreateVolume timed out after ",
                    text::decimal_u64(task.config.rpc_timeout.as_secs()).as_str(),
                    "s",
                ),
            ),
        ),
        RpcReply::Answer(response) => match validate_create_volume_response(
            &response,
            &task.config.volume_id,
        ) {
            Ok(()) => CreateStep::Done(
                Ok(CreateVolumeOutcome::Created { run_id: response.run_id }),
            ),
            Err(e) => CreateStep::Done(Err(e)),
        },
        RpcReply::Status { code, message } => {
            if code == Code::AlreadyExists && task.config.if_not_exists {
                return CreateStep::Done(Ok(CreateVolumeOutcome::AlreadyExists));
            }
            CreateStep::Done(
                Err(
                    text::cat6(
                        "CreateVolume",
                        " failed with ",
                        code.describe().as_str(),
                        " (",
                        message.as_str(),
                        ")",
                    ),
                ),
            )
        },
    }
}

} // verus!
