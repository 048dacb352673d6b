//! Running devices: what is checked before one starts, and how its number is claimed.
use crate::text;
use vstd::prelude::*;

verus! {

/// Where the kernel's control device is.
pub const DEFAULT_CONTROL_DEVICE: &'static str = "/dev/ublk-control";

/// The most requests that a queue holds.
pub const UBLK_MAX_QUEUE_DEPTH: u16 = 4096;

/// Where claimed device numbers are recorded.
pub const UBLK_RUNTIME_STATE_DIR: &'static str = "/tmp/temporal-ublk/devices";

/// The largest device number.
pub const UBLK_MAX_DEVICE_ID: u32 = 65_535;

/// The class of a failure.
#[derive(Clone, Copy, Debug, PartialEq, Eq, Structural)]
pub enum RuntimeErrorKind {
    InvalidArgument,
    Unavailable,
    Internal,
}

/// A device that cannot be run.
#[derive(Debug, PartialEq, Eq)]
pub struct RuntimeError {
    pub kind: RuntimeErrorKind,
    pub message: String,
}

/// What a `RuntimeError` holds.
pub struct RuntimeErrorView {
    pub kind: RuntimeErrorKind,
    pub message: Seq<char>,
}

impl View for RuntimeError {
    type V = RuntimeErrorView;

    open spec fn view(&self) -> RuntimeErrorView {
        RuntimeErrorView { kind: self.kind, message: self.message@ }
    }
}

impl Clone for RuntimeError {
    fn clone(&self) -> (r: Self)
        ensures
            r == *self,
    {
        RuntimeError { kind: self.kind, message: self.message.clone() }
    }
}

/// A failure for which the caller is at fault.
pub open spec fn invalid(message: Seq<char>) -> RuntimeErrorView {
    RuntimeErrorView { kind: RuntimeErrorKind::InvalidArgument, message }
}

/// A failure that may pass.
pub open spec fn unavailable(message: Seq<char>) -> RuntimeErrorView {
    RuntimeErrorView { kind: RuntimeErrorKind::Unavailable, message }
}

/// Any other failure.
pub open spec fn internal(message: Seq<char>) -> RuntimeErrorView {
    RuntimeErrorView { kind: RuntimeErrorKind::Internal, message }
}

impl RuntimeError {
    /// A failure for which the caller is at fault.
    pub fn invalid_argument(message: &str) -> (r: Self)
        ensures
            r@ == invalid(message@),
    {
        RuntimeError { kind: RuntimeErrorKind::InvalidArgument, message: message.to_owned() }
    }

    /// A failure that may pass.
    pub fn unavailable(message: &str) -> (r: Self)
        ensures
            r@ == unavailable(message@),
    {
        RuntimeError { kind: RuntimeErrorKind::Unavailable, message: message.to_owned() }
    }

    /// Any other failure.
    pub fn internal(message: &str) -> (r: Self)
        ensures
            r@ == internal(message@),
    {
        RuntimeError { kind: RuntimeErrorKind::Internal, message: message.to_owned() }
    }

    /// The failure in words.
    pub fn describe(&self) -> (r: String)
        ensures
            r@ == self@.message,
    {
        self.message.clone()
    }
}

/// A device to be started.
#[derive(Debug)]
pub struct DeviceStartConfig {
    pub control_device: String,
    pub volume_id: String,
    pub requested_device_id: Option<u32>,
    pub size_bytes: u64,
    pub block_size_bytes: u32,
    pub queues: u16,
    pub queue_depth: u16,
}

impl Clone for DeviceStartConfig {
    fn clone(&self) -> (r: Self)
        ensures
            r == *self,
    {
        DeviceStartConfig {
            control_device: self.control_device.clone(),
            volume_id: self.volume_id.clone(),
            requested_device_id: self.requested_device_id,
            size_bytes: self.size_bytes,
            block_size_bytes: self.block_size_bytes,
            queues: self.queues,
            queue_depth: self.queue_depth,
        }
    }
}

/// What is wrong with the queues of a device, if something is.
pub open spec fn queue_error(queues: u16, queue_depth: u16) -> Option<RuntimeErrorView> {
    if queues == 0 {
        Some(invalid("ublk_queues must be greater than zero"@))
    } else if queue_depth == 0 {
        Some(invalid("ublk_queue_depth must be greater than zero"@))
    } else if queue_depth > UBLK_MAX_QUEUE_DEPTH {
        Some(invalid("ublk_queue_depth must be <= "@ + text::decimal(UBLK_MAX_QUEUE_DEPTH as nat)))
    } else {
        None
    }
}

/// Checks the queues of a device.
pub fn validate_queue_model(queues: u16, queue_depth: u16) -> (r: Result<(), RuntimeError>)
    ensures
        match r {
            Ok(()) => queue_error(queues, queue_depth) is None,
            Err(e) => queue_error(queues, queue_depth) == Some(e@),
        },
{
    if queues == 0 {
        return Err(RuntimeError::invalid_argument("ublk_queues must be greater than zero"));
    }
    if queue_depth == 0 {
        return Err(RuntimeError::invalid_argument("ublk_queue_depth must be greater than zero"));
    }
    if queue_depth > UBLK_MAX_QUEUE_DEPTH {
        let message: String = text::cat2(
            "ublk_queue_depth must be <= ",
            text::decimal_u64(UBLK_MAX_QUEUE_DEPTH as u64).as_str(),
        );
        return Err(RuntimeError::invalid_argument(message.as_str()));
    }
    Ok(())
}

/// Why devices cannot be run on this host, if they cannot, before its control device is opened.
pub open spec fn host_error(
    on_linux: bool,
    control_exists: bool,
    module_loaded: bool,
    control_device: Seq<char>,
) -> Option<RuntimeErrorView> {
    if !on_linux {
        Some(invalid("ublk runtime is only supported on Linux hosts"@))
    } else if !control_exists {
        Some(unavailable("UBLK control device "@ + control_device + " does not exist"@))
    } else if !module_loaded {
        Some(unavailable("ublk kernel module is not loaded (missing /sys/module/ublk_drv)"@))
    } else {
        None
    }
}

/// Checks the host before its control device is opened.
pub fn preflight(
    on_linux: bool,
    control_exists: bool,
    module_loaded: bool,
    control_device: &str,
) -> (r: Result<(), RuntimeError>)
    ensures
        match r {
            Ok(()) => host_error(on_linux, control_exists, module_loaded, control_device@) is None,
            Err(e) => host_error(on_linux, control_exists, module_loaded, control_device@) == Some(
                e@,
            ),
        },
{
    if !on_linux {
        return Err(RuntimeError::invalid_argument("ublk runtime is only supported on Linux hosts"));
    }
    if !control_exists {
        let message: String = text::cat3("UBLK control device ", control_device, " does not exist");
        return Err(RuntimeError::unavailable(message.as_str()));
    }
    if !module_loaded {
        return Err(
            RuntimeError::unavailable(
                "ublk kernel module is not loaded (missing /sys/module/ublk_drv)",
            ),
        );
    }
    Ok(())
}

/// Ends the check of the host with whether its control device could be opened.
pub fn preflight_opened(opened: bool, control_device: &str) -> (r: Result<(), RuntimeError>)
    ensures
        match r {
            Ok(()) => opened,
            Err(e) => !opened && e@ == unavailable("failed to open "@ + control_device@),
        },
{
    if opened {
        Ok(())
    } else {
        Err(RuntimeError::unavailable(text::cat2("failed to open ", control_device).as_str()))
    }
}

/// What is wrong with a device to be started, if something is.
pub open spec fn start_error(config: DeviceStartConfig) -> Option<RuntimeErrorView> {
    match queue_error(config.queues, config.queue_depth) {
        Some(e) => Some(e),
        None => if config.size_bytes == 0 {
            Some(invalid("volume size must be greater than zero"@))
        } else if config.block_size_bytes == 0 {
            Some(invalid("block size must be greater than zero"@))
        } else {
            None
        },
    }
}

/// Checks a device before it is started.
pub fn check_start(config: &DeviceStartConfig) -> (r: Result<(), RuntimeError>)
    ensures
        match r {
            Ok(()) => start_error(*config) is None,
            Err(e) => start_error(*config) == Some(e@),
        },
{
    match validate_queue_model(config.queues, config.queue_depth) {
        Ok(()) => {},
        Err(e) => {
            return Err(e);
        },
    }
    if config.size_bytes == 0 {
        return Err(RuntimeError::invalid_argument("volume size must be greater than zero"));
    }
    if config.block_size_bytes == 0 {
        return Err(RuntimeError::invalid_argument("block size must be greater than zero"));
    }
    Ok(())
}

/// A device that is ready.
#[derive(Debug)]
pub struct RuntimeReady {
    pub device_id: u32,
    pub device_path: String,
}

/// The path of a device.
pub fn device_path(device_id: u32) -> (r: String)
    ensures
        r@ == "/dev/ublkb"@ + text::decimal(device_id as nat),
{
    text::cat2("/dev/ublkb", text::decimal_u64(device_id as u64).as_str())
}

/// How a device's task ended that never said it was ready.
#[derive(Debug)]
pub enum SilentEnd {
    /// The task could not be joined.
    JoinFailed(String),
    /// The task returned.
    Returned(Result<(), RuntimeError>),
}

/// The failure of a device that never said it was ready.
pub fn silent_end_error(end: SilentEnd) -> (r: RuntimeError)
    ensures
        r@ == match end {
            SilentEnd::JoinFailed(detail) => internal("ublk runtime join error: "@ + detail@),
            SilentEnd::Returned(Ok(())) => internal(
                "ublk runtime exited before signaling readiness"@,
            ),
            SilentEnd::Returned(Err(e)) => e@,
        },
{
    match end {
        SilentEnd::JoinFailed(detail) => RuntimeError::internal(
            text::cat2("ublk runtime join error: ", detail.as_str()).as_str(),
        ),
        SilentEnd::Returned(result) => match result {
            Ok(()) => RuntimeError::internal("ublk runtime exited before signaling readiness"),
            Err(e) => e,
        },
    }
}

/// Where the claim of a device number is recorded.
pub open spec fn lock_path(device_id: u32) -> Seq<char> {
    UBLK_RUNTIME_STATE_DIR@ + "/ublkb"@ + text::decimal(device_id as nat) + ".lock"@
}

/// Where the claim of a device number is recorded.
pub fn device_lock_path(device_id: u32) -> (r: String)
    ensures
        r@ == lock_path(device_id),
{
    text::cat4(
        UBLK_RUNTIME_STATE_DIR,
        "/ublkb",
        text::decimal_u64(device_id as u64).as_str(),
        ".lock",
    )
}

/// What is recorded with the claim of a device number.
pub fn claim_record(volume_id: &str) -> (r: String)
    ensures
        r@ == "volume_id="@ + volume_id@ + "\n"@,
{
    text::cat3("volume_id=", volume_id, "\n")
}

/// What came of recording the claim of one device number.
#[derive(Debug)]
pub enum ClaimOutcome {
    Claimed,
    /// The number is taken.
    Taken,
    /// The record could not be made.
    Failed(String),
    /// The record could not be filled.
    WriteFailed(String),
}

/// The failure to claim one device number, if it is one.
pub open spec fn claim_error(device_id: u32, outcome: ClaimOutcome) -> Option<RuntimeErrorView> {
    match outcome {
        ClaimOutcome::Claimed => None,
        ClaimOutcome::Taken => Some(
            unavailable(
                "device_id '"@ + text::decimal(device_id as nat) + "' is already in use"@,
            ),
        ),
        ClaimOutcome::Failed(detail) => Some(
            internal(
                "failed to claim device_id '"@ + text::decimal(device_id as nat) + "' via "@
                    + lock_path(device_id) + ": "@ + detail@,
            ),
        ),
        ClaimOutcome::WriteFailed(detail) => Some(
            internal("failed to write "@ + lock_path(device_id) + ": "@ + detail@),
        ),
    }
}

/// What came of claiming one device number.
pub fn claim_specific_device(device_id: u32, outcome: ClaimOutcome) -> (r: Result<
    (),
    RuntimeError,
>)
    ensures
        match r {
            Ok(()) => claim_error(device_id, outcome) is None,
            Err(e) => claim_error(device_id, outcome) == Some(e@),
        },
{
    match outcome {
        ClaimOutcome::Claimed => Ok(()),
        ClaimOutcome::Taken => {
            let message: String = text::cat3(
                "device_id '",
                text::decimal_u64(device_id as u64).as_str(),
                "' is already in use",
            );
            Err(RuntimeError::unavailable(message.as_str()))
        },
        ClaimOutcome::Failed(detail) => {
            let message: String = text::cat6(
                "failed to claim device_id '",
                text::decimal_u64(device_id as u64).as_str(),
                "' via ",
                device_lock_path(device_id).as_str(),
                ": ",
                detail.as_str(),
            );
            Err(RuntimeError::internal(message.as_str()))
        },
        ClaimOutcome::WriteFailed(detail) => {
            let message: String = text::cat4(
                "failed to write ",
                device_lock_path(device_id).as_str(),
                ": ",
                detail.as_str(),
            );
            Err(RuntimeError::internal(message.as_str()))
        },
    }
}

/// A device number to be claimed.
#[derive(Clone, Copy, Debug, PartialEq, Eq, Structural)]
pub struct ClaimTask {
    pub device_id: u32,
    /// Whether any other number would do as well.
    pub any: bool,
}

/// What to do next to claim a device number.
#[derive(Debug)]
pub enum ClaimStep {
    /// Record the claim of a number.
    Claim(ClaimTask),
    /// It is over.
    Done(Result<u32, RuntimeError>),
}

/// What a `ClaimStep` holds.
pub enum ClaimStepView {
    Claim(ClaimTask),
    Done(Result<u32, RuntimeErrorView>),
}

impl View for ClaimStep {
    type V = ClaimStepView;

    open spec fn view(&self) -> ClaimStepView {
        match self {
            ClaimStep::Claim(task) => ClaimStepView::Claim(*task),
            ClaimStep::Done(Ok(id)) => ClaimStepView::Done(Ok(*id)),
            ClaimStep::Done(Err(e)) => ClaimStepView::Done(Err(e@)),
        }
    }
}

/// The first step to claim a device number.
pub open spec fn claim_start(requested: Option<u32>, dir_ready: Result<(), String>) -> ClaimStepView {
    match dir_ready {
        Err(detail) => ClaimStepView::Done(
            Err(
                internal(
                    "failed to create ublk runtime state dir "@ + UBLK_RUNTIME_STATE_DIR@ + ": "@
                        + detail@,
                ),
            ),
        ),
        Ok(()) => match requested {
            Some(device_id) => if device_id > UBLK_MAX_DEVICE_ID {
                ClaimStepView::Done(
                    Err(
                        invalid(
                            "requested device_id '"@ + text::decimal(device_id as nat)
                                + "' is out of supported range (max "@ + text::decimal(
                                UBLK_MAX_DEVICE_ID as nat,
                            ) + ")"@,
                        ),
                    ),
                )
            } else {
                ClaimStepView::Claim(ClaimTask { device_id, any: false })
            },
            None => ClaimStepView::Claim(ClaimTask { device_id: 0, any: true }),
        },
    }
}

/// Starts to claim a device number: the one that was asked for, or the lowest free one. `dir_ready`
/// is what came of making the directory for the records.
pub fn claim_device_id(requested: Option<u32>, dir_ready: Result<(), String>) -> (step: ClaimStep)
    ensures
        step@ == claim_start(requested, dir_ready),
{
    match dir_ready {
        Err(detail) => {
            let message: String = text::cat4(
                "failed to create ublk runtime state dir ",
                UBLK_RUNTIME_STATE_DIR,
                ": ",
                detail.as_str(),
            );
            ClaimStep::Done(Err(RuntimeError::internal(message.as_str())))
        },
        Ok(()) => match requested {
            Some(device_id) => {
                if device_id > UBLK_MAX_DEVICE_ID {
                    let message: String = text::cat5(
                        "requested device_id '",
                        text::decimal_u64(device_id as u64).as_str(),
                        "' is out of supported range (max ",
                        text::decimal_u64(UBLK_MAX_DEVICE_ID as u64).as_str(),
                        ")",
                    );
                    return ClaimStep::Done(Err(RuntimeError::invalid_argument(message.as_str())));
                }
                ClaimStep::Claim(ClaimTask { device_id, any: false })
            },
            None => ClaimStep::Claim(ClaimTask { device_id: 0, any: true }),
        },
    }
}

/// The step after one number was tried: where any number would do, the next one follows a taken
/// one.
pub open spec fn claim_next(task: ClaimTask, outcome: ClaimOutcome) -> ClaimStepView {
    match claim_error(task.device_id, outcome) {
        None => ClaimStepView::Done(Ok(task.device_id)),
        Some(e) => if task.any && outcome is Taken {
            if task.device_id < UBLK_MAX_DEVICE_ID {
                ClaimStepView::Claim(
                    ClaimTask { device_id: (task.device_id + 1) as u32, any: true },
                )
            } else {
                ClaimStepView::Done(
                    Err(
                        unavailable(
                            "no free ublk device id available in local runtime allocator"@,
                        ),
                    ),
                )
            }
        } else {
            ClaimStepView::Done(Err(e))
        },
    }
}

/// Carries the claim of a device number on with what came of trying one.
pub fn claim_tried(task: ClaimTask, outcome: ClaimOutcome) -> (step: ClaimStep)
    ensures
        step@ == claim_next(task, outcome),
{
    match claim_specific_device(task.device_id, outcome) {
        Ok(()) => ClaimStep::Done(Ok(task.device_id)),
        Err(e) => {
            if task.any && e.kind == RuntimeErrorKind::Unavailable {
                if task.device_id < UBLK_MAX_DEVICE_ID {
                    ClaimStep::Claim(ClaimTask { device_id: task.device_id + 1, any: true })
                } else {
                    ClaimStep::Done(
                        Err(
                            RuntimeError::unavailable(
                                "no free ublk device id available in local runtime allocator",
                            ),
                        ),
                    )
                }
            } else {
                ClaimStep::Done(Err(e))
            }
        },
    }
}

/// Where the claim of any number ends that starts at `from`, when `taken` says of each number
/// whether it is taken.
pub open spec fn claim_run(from: u32, taken: spec_fn(u32) -> bool) -> ClaimStepView
    decreases UBLK_MAX_DEVICE_ID - from,
{
    let outcome = if taken(from) {
        ClaimOutcome::Taken
    } else {
        ClaimOutcome::Claimed
    };
    match claim_next(ClaimTask { device_id: from, any: true }, outcome) {
        ClaimStepView::Claim(next) => if from < next.device_id <= UBLK_MAX_DEVICE_ID {
            claim_run(next.device_id, taken)
        } else {
            ClaimStepView::Claim(next)
        },
        done => done,
    }
}

/// Where any number would do, the lowest free one is claimed, and none only where all are taken.
pub proof fn law_lowest_free_number_is_claimed(from: u32, taken: spec_fn(u32) -> bool)
    requires
        from <= UBLK_MAX_DEVICE_ID,
    ensures
        match claim_run(from, taken) {
            ClaimStepView::Done(Ok(id)) => {
                &&& from <= id <= UBLK_MAX_DEVICE_ID
                &&& !taken(id)
                &&& forall|lower: u32| from <= lower < id ==> #[trigger] taken(lower)
            },
            ClaimStepView::Done(Err(e)) => {
                &&& e.kind is Unavailable
                &&& forall|id: u32| from <= id <= UBLK_MAX_DEVICE_ID ==> #[trigger] taken(id)
            },
            ClaimStepView::Claim(_) => false,
        },
    decreases UBLK_MAX_DEVICE_ID - from,
{
    if taken(from) && from < UBLK_MAX_DEVICE_ID {
        law_lowest_free_number_is_claimed((from + 1) as u32, taken);
    }
}

/// What came of taking a record away.
#[derive(Debug)]
pub enum RemovalOutcome {
    Removed,
    /// There was none.
    Missing,
    Failed(String),
}

/// What came of giving a device number back. One that was never claimed counts as given back.
pub fn cleanup_device_claim(device_id: u32, outcome: RemovalOutcome) -> (r: Result<
    (),
    RuntimeError,
>)
    ensures
        match outcome {
            RemovalOutcome::Failed(detail) => r matches Err(e) && e@ == internal(
                "failed to release device_id '"@ + text::decimal(device_id as nat) + "' at "@
                    + lock_path(device_id) + ": "@ + detail@,
            ),
            _ => r is Ok,
        },
{
    match outcome {
        RemovalOutcome::Removed => Ok(()),
        RemovalOutcome::Missing => Ok(()),
        RemovalOutcome::Failed(detail) => {
            let message: String = text::cat6(
                "failed to release device_id '",
                text::decimal_u64(device_id as u64).as_str(),
                "' at ",
                device_lock_path(device_id).as_str(),
                ": ",
                detail.as_str(),
            );
            Err(RuntimeError::internal(message.as_str()))
        },
    }
}

/// What came of taking a device away by force. One that was never claimed counts as taken away.
pub fn force_detach_device(device_id: u32, outcome: RemovalOutcome) -> (r: Result<(), RuntimeError>)
    ensures
        match outcome {
            RemovalOutcome::Failed(detail) => r matches Err(e) && e@ == internal(
                "failed to remove runtime lock "@ + lock_path(device_id) + ": "@ + detail@,
            ),
            _ => r is Ok,
        },
{
    match outcome {
        RemovalOutcome::Removed => Ok(()),
        RemovalOutcome::Missing => Ok(()),
        RemovalOutcome::Failed(detail) => {
            let message: String = text::cat4(
                "failed to remove runtime lock ",
                device_lock_path(device_id).as_str(),
                ": ",
                detail.as_str(),
            );
            Err(RuntimeError::internal(message.as_str()))
        },
    }
}

} // verus!
