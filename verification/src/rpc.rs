//! Remote calls: what can come of one, and when a failed one is made again.
use crate::errors::{TransportError, TransportErrorView};
use crate::text;
use crate::time::Duration;
use crate::time;
use vstd::prelude::*;

verus! {

/// A status code of a remote call.
#[derive(Clone, Copy, Debug, PartialEq, Eq, Structural)]
pub enum Code {
    Success,
    Cancelled,
    Unknown,
    InvalidArgument,
    DeadlineExceeded,
    NotFound,
    AlreadyExists,
    PermissionDenied,
    ResourceExhausted,
    FailedPrecondition,
    Aborted,
    OutOfRange,
    Unimplemented,
    Internal,
    Unavailable,
    DataLoss,
    Unauthenticated,
}

impl Code {
    /// The number of the code.
    pub open spec fn number(self) -> i32 {
        match self {
            Code::Success => 0,
            Code::Cancelled => 1,
            Code::Unknown => 2,
            Code::InvalidArgument => 3,
            Code::DeadlineExceeded => 4,
            Code::NotFound => 5,
            Code::AlreadyExists => 6,
            Code::PermissionDenied => 7,
            Code::ResourceExhausted => 8,
            Code::FailedPrecondition => 9,
            Code::Aborted => 10,
            Code::OutOfRange => 11,
            Code::Unimplemented => 12,
            Code::Internal => 13,
            Code::Unavailable => 14,
            Code::DataLoss => 15,
            Code::Unauthenticated => 16,
        }
    }

    /// What the code means, in words.
    pub open spec fn text(self) -> Seq<char> {
        match self {
            Code::Success => "The operation completed successfully"@,
            Code::Cancelled => "The operation was cancelled"@,
            Code::Unknown => "Unknown error"@,
            Code::InvalidArgument => "Client specified an invalid argument"@,
            Code::DeadlineExceeded => "Deadline expired before operation could complete"@,
            Code::NotFound => "Some requested entity was not found"@,
            Code::AlreadyExists => "Some entity that we attempted to create already exists"@,
            Code::PermissionDenied =>
                "The caller does not have permission to execute the specified operation"@,
            Code::ResourceExhausted => "Some resource has been exhausted"@,
            Code::FailedPrecondition =>
                "The system is not in a state required for the operation's execution"@,
            Code::Aborted => "The operation was aborted"@,
            Code::OutOfRange => "Operation was attempted past the valid range"@,
            Code::Unimplemented => "Operation is not implemented or not supported"@,
            Code::Internal => "Internal error"@,
            Code::Unavailable => "The service is currently unavailable"@,
            Code::DataLoss => "Unrecoverable data loss or corruption"@,
            Code::Unauthenticated =>
                "The request does not have valid authentication credentials"@,
        }
    }

    /// The code with this number; any other number counts as unknown.
    pub fn from_i32(number: i32) -> (r: Code)
        ensures
            0 <= number <= 16 ==> r.number() == number,
            !(0 <= number <= 16) ==> r == Code::Unknown,
    {
        if number == 0 {
            Code::Success
        } else if number == 1 {
            Code::Cancelled
        } else if number == 3 {
            Code::InvalidArgument
        } else if number == 4 {
            Code::DeadlineExceeded
        } else if number == 5 {
            Code::NotFound
        } else if number == 6 {
            Code::AlreadyExists
        } else if number == 7 {
            Code::PermissionDenied
        } else if number == 8 {
            Code::ResourceExhausted
        } else if number == 9 {
            Code::FailedPrecondition
        } else if number == 10 {
            Code::Aborted
        } else if number == 11 {
            Code::OutOfRange
        } else if number == 12 {
            Code::Unimplemented
        } else if number == 13 {
            Code::Internal
        } else if number == 14 {
            Code::Unavailable
        } else if number == 15 {
            Code::DataLoss
        } else if number == 16 {
            Code::Unauthenticated
        } else {
            Code::Unknown
        }
    }
}

/// `tonic::Code::description` of the code that `tonic::Code::from_i32` gives for `number`. It
/// returns one fixed sentence for each of the seventeen codes, and the contract repeats them.
#[verifier::external_body]
fn description(number: i32) -> (r: String)
    requires
        0 <= number <= 16,
    ensures
        forall|code: Code| #[trigger] code.number() == number ==> r@ == code.text(),
{
    tonic::Code::from_i32(number).description().to_string()
}

impl Code {
    /// The number of the code.
    pub fn to_i32(&self) -> (r: i32)
        ensures
            r == self.number(),
    {
        match self {
            Code::Success => 0,
            Code::Cancelled => 1,
            Code::Unknown => 2,
            Code::InvalidArgument => 3,
            Code::DeadlineExceeded => 4,
            Code::NotFound => 5,
            Code::AlreadyExists => 6,
            Code::PermissionDenied => 7,
            Code::ResourceExhausted => 8,
            Code::FailedPrecondition => 9,
            Code::Aborted => 10,
            Code::OutOfRange => 11,
            Code::Unimplemented => 12,
            Code::Internal => 13,
            Code::Unavailable => 14,
            Code::DataLoss => 15,
            Code::Unauthenticated => 16,
        }
    }

    /// What the code means, in words.
    pub fn describe(&self) -> (r: String)
        ensures
            r@ == self.text(),
    {
        description(self.to_i32())
    }

    /// Whether a call that ended with this code may succeed when it is made again.
    pub open spec fn may_pass(self) -> bool {
        match self {
            Code::Unavailable
            | Code::DeadlineExceeded
            | Code::Unknown
            | Code::Internal
            | Code::Aborted
            | Code::ResourceExhausted
            | Code::Cancelled => true,
            _ => false,
        }
    }
}

/// Whether a call that ended with `code` may succeed when it is made again.
pub fn is_retryable_status(code: Code) -> (r: bool)
    ensures
        r == code.may_pass(),
{
    match code {
        Code::Unavailable
        | Code::DeadlineExceeded
        | Code::Unknown
        | Code::Internal
        | Code::Aborted
        | Code::ResourceExhausted
        | Code::Cancelled => true,
        _ => false,
    }
}

/// What is said of a call that ended with a status.
pub open spec fn status_text(operation: Seq<char>, code: Code, message: Seq<char>) -> Seq<char> {
    operation + " failed with "@ + code.text() + " ("@ + message + ")"@
}

/// The error for a call that ended with a status.
pub open spec fn status_error(
    operation: Seq<char>,
    code: Code,
    message: Seq<char>,
    retryable: bool,
) -> TransportErrorView {
    if retryable {
        TransportErrorView::Retryable(status_text(operation, code, message))
    } else {
        TransportErrorView::Terminal(status_text(operation, code, message))
    }
}

/// The error for a call that ended with a status.
pub fn status_to_transport(operation: &str, code: Code, message: &str, retryable: bool) -> (r:
    TransportError)
    ensures
        r@ == status_error(operation@, code, message@, retryable),
{
    let text: String = text::cat6(
        operation,
        " failed with ",
        code.describe().as_str(),
        " (",
        message,
        ")",
    );
    if retryable {
        TransportError::Retryable { message: text }
    } else {
        TransportError::Terminal { message: text }
    }
}

/// How often a failed call is made, and how long the waits in between are.
#[derive(Clone, Copy, Debug)]
pub struct RetryConfig {
    pub max_attempts: usize,
    pub initial_backoff: Duration,
    pub max_backoff: Duration,
}

impl Default for RetryConfig {
    fn default() -> (r: Self)
        ensures
            r.max_attempts == 5,
            r.initial_backoff@ == 150_000_000,
            r.max_backoff@ == 2_000_000_000,
    {
        RetryConfig {
            max_attempts: 5,
            initial_backoff: Duration::from_millis(150),
            max_backoff: Duration::from_secs(2),
        }
    }
}

/// The length of the wait that follows the failure of attempt number `attempt`, in nanoseconds:
/// it doubles with each attempt, twelve times at most, up to a limit.
pub open spec fn backoff(initial: nat, limit: nat, attempt: nat) -> nat {
    let doublings = if attempt <= 1 {
        0
    } else if attempt > 13 {
        12
    } else {
        (attempt - 1) as nat
    };
    let exponential = initial * vstd::arithmetic::power2::pow2(doublings);
    if exponential > time::MAX_NANOS || exponential > limit {
        limit
    } else {
        exponential
    }
}

impl RetryConfig {
    /// How often a call is made at most.
    pub open spec fn attempts(self) -> usize {
        if self.max_attempts == 0 {
            1
        } else {
            self.max_attempts
        }
    }

    /// The wait after attempt number `attempt`, in nanoseconds.
    pub open spec fn delay(self, attempt: usize) -> nat {
        backoff(self.initial_backoff@, self.max_backoff@, attempt as nat)
    }

    /// How often a call is made at most: as configured, but at least once.
    pub fn capped_attempts(&self) -> (r: usize)
        ensures
            r == self.attempts(),
            r >= 1,
    {
        if self.max_attempts == 0 {
            1
        } else {
            self.max_attempts
        }
    }

    /// The wait after attempt number `attempt`, before any jitter.
    pub fn delay_for_attempt(&self, attempt: usize) -> (r: Duration)
        ensures
            r@ == self.delay(attempt),
    {
        let doublings: usize = if attempt <= 1 {
            0
        } else if attempt > 13 {
            12
        } else {
            attempt - 1
        };
        let mut multiplier: u32 = 1;
        let mut i: usize = 0;
        proof {
            vstd::arithmetic::power2::lemma2_to64();
        }
        while i < doublings
            invariant
                i <= doublings <= 12,
                multiplier == vstd::arithmetic::power2::pow2(i as nat),
                multiplier <= 4096,
                vstd::arithmetic::power2::pow2(12) == 4096,
            decreases doublings - i,
        {
            proof {
                vstd::arithmetic::power2::lemma_pow2_unfold((i + 1) as nat);
                if i + 1 < 12 {
                    vstd::arithmetic::power2::lemma_pow2_strictly_increases((i + 1) as nat, 12);
                }
            }
            multiplier = multiplier * 2;
            i = i + 1;
        }
        assert(self.initial_backoff@ * multiplier == self.initial_backoff@
            * vstd::arithmetic::power2::pow2(doublings as nat));
        let exponential: Duration = match self.initial_backoff.checked_mul(multiplier) {
            Some(d) => d,
            None => self.max_backoff,
        };
        if self.max_backoff.shorter_than(exponential) {
            self.max_backoff
        } else {
            exponential
        }
    }
}

/// No wait is longer than the limit.
pub proof fn law_backoff_is_limited(initial: nat, limit: nat, attempt: nat)
    ensures
        backoff(initial, limit, attempt) <= limit,
{
}

/// A later wait is never shorter.
pub proof fn law_backoff_grows(initial: nat, limit: nat, earlier: nat, later: nat)
    requires
        earlier <= later,
    ensures
        backoff(initial, limit, earlier) <= backoff(initial, limit, later),
{
    let a: nat = if earlier <= 1 {
        0
    } else if earlier > 13 {
        12
    } else {
        (earlier - 1) as nat
    };
    let b: nat = if later <= 1 {
        0
    } else if later > 13 {
        12
    } else {
        (later - 1) as nat
    };
    let pa = vstd::arithmetic::power2::pow2(a);
    let pb = vstd::arithmetic::power2::pow2(b);
    if a < b {
        vstd::arithmetic::power2::lemma_pow2_strictly_increases(a, b);
    }
    assert(initial * pa <= initial * pb) by (nonlinear_arith)
        requires
            pa <= pb,
    ;
}

/// What came of a remote call.
#[derive(Debug)]
pub enum RpcReply<A> {
    /// It was answered.
    Answer(A),
    /// It ended with a status other than success.
    Status { code: Code, message: String },
    /// No answer came in time.
    TimedOut,
}

/// Why an attempt failed.
#[derive(Debug)]
pub enum RpcFailure {
    /// No connection could be made; `message` is what to report.
    Connect { message: String },
    /// The call ended with a status.
    Status { code: Code, message: String },
    /// No answer came in time.
    TimedOut,
}

/// What an `RpcFailure` holds.
pub enum RpcFailureView {
    Connect(Seq<char>),
    Status(Code, Seq<char>),
    TimedOut,
}

impl View for RpcFailure {
    type V = RpcFailureView;

    open spec fn view(&self) -> RpcFailureView {
        match self {
            RpcFailure::Connect { message } => RpcFailureView::Connect(message@),
            RpcFailure::Status { code, message } => RpcFailureView::Status(*code, message@),
            RpcFailure::TimedOut => RpcFailureView::TimedOut,
        }
    }
}

/// Whether making the call again may help.
pub open spec fn worth_retrying(failure: RpcFailureView) -> bool {
    match failure {
        RpcFailureView::Status(code, _) => code.may_pass(),
        RpcFailureView::Connect(_) | RpcFailureView::TimedOut => true,
    }
}

/// The error that ends a call for good.
pub open spec fn final_error(
    operation: Seq<char>,
    attempts: usize,
    failure: RpcFailureView,
) -> TransportErrorView {
    match failure {
        RpcFailureView::Connect(message) => TransportErrorView::Retryable(message),
        RpcFailureView::Status(code, message) => status_error(
            operation,
            code,
            message,
            code.may_pass(),
        ),
        RpcFailureView::TimedOut => TransportErrorView::Retryable(
            operation + " timed out after "@ + text::decimal(attempts as nat) + " attempts"@,
        ),
    }
}

/// What to do after a failed attempt.
#[derive(Debug)]
pub enum RetryDecision {
    /// Wait, and make another attempt.
    Wait(Duration),
    /// Give up.
    GiveUp(TransportError),
}

/// Whether another attempt is made after attempt number `attempt` failed.
pub open spec fn retries(retry: RetryConfig, attempt: usize, failure: RpcFailureView) -> bool {
    worth_retrying(failure) && attempt < retry.attempts()
}

/// Decides what to do after attempt number `attempt` failed.
pub fn after_failure(retry: &RetryConfig, operation: &str, attempt: usize, failure: RpcFailure) -> (r:
    RetryDecision)
    ensures
        match r {
            RetryDecision::Wait(delay) => retries(*retry, attempt, failure@)
                && delay@ == retry.delay(attempt),
            RetryDecision::GiveUp(error) => !retries(*retry, attempt, failure@) && error@
                == final_error(operation@, retry.attempts(), failure@),
        },
{
    let attempts: usize = retry.capped_attempts();
    match failure {
        RpcFailure::Connect { message } => if attempt < attempts {
            RetryDecision::Wait(retry.delay_for_attempt(attempt))
        } else {
            RetryDecision::GiveUp(TransportError::Retryable { message })
        },
        RpcFailure::Status { code, message } => {
            let retryable: bool = is_retryable_status(code);
            if retryable && attempt < attempts {
                RetryDecision::Wait(retry.delay_for_attempt(attempt))
            } else {
                RetryDecision::GiveUp(
                    status_to_transport(operation, code, message.as_str(), retryable),
                )
            }
        },
        RpcFailure::TimedOut => if attempt < attempts {
            RetryDecision::Wait(retry.delay_for_attempt(attempt))
        } else {
            let message: String = text::cat4(
                operation,
                " timed out after ",
                text::decimal_usize(attempts).as_str(),
                " attempts",
            );
            RetryDecision::GiveUp(TransportError::Retryable { message })
        },
    }
}

/// The next thing to do for a remote call: `C` is the call, `R` what it is made for.
#[derive(Debug)]
pub enum RpcStep<C, R> {
    /// Connect to the service.
    Connect(C),
    /// Make the call.
    Call(C),
    /// Wait, then resume.
    Sleep(C, Duration),
    /// The call is over.
    Done(Result<R, TransportError>),
}

/// Whether `step` waits for another attempt or gives up, as it should after a failed one.
pub open spec fn failure_handled<C, R>(
    retry: RetryConfig,
    operation: Seq<char>,
    attempt: usize,
    failure: RpcFailureView,
    call: C,
    step: RpcStep<C, R>,
) -> bool {
    if retries(retry, attempt, failure) {
        step matches RpcStep::Sleep(again, delay) && again == call && delay@ == retry.delay(attempt)
    } else {
        step matches RpcStep::Done(result) && result matches Err(e) && e@ == final_error(
            operation,
            retry.attempts(),
            failure,
        )
    }
}

/// The step after a failed attempt.
pub fn failure_step<C, R>(
    retry: &RetryConfig,
    operation: &str,
    attempt: usize,
    failure: RpcFailure,
    call: C,
) -> (step: RpcStep<C, R>)
    ensures
        failure_handled(*retry, operation@, attempt, failure@, call, step),
{
    match after_failure(retry, operation, attempt, failure) {
        RetryDecision::Wait(delay) => RpcStep::Sleep(call, delay),
        RetryDecision::GiveUp(error) => RpcStep::Done(Err(error)),
    }
}

/// How many attempts are made, counting from number `attempt`, where attempt number `n` fails for
/// the reason `failures[n]` (or not at all where that is `None`).
pub open spec fn attempts_made(
    retry: RetryConfig,
    attempt: usize,
    failures: spec_fn(usize) -> Option<RpcFailureView>,
) -> nat
    decreases retry.attempts() - attempt,
{
    match failures(attempt) {
        Some(failure) => if retries(retry, attempt, failure) {
            1 + attempts_made(retry, (attempt + 1) as usize, failures)
        } else {
            1
        },
        None => 1,
    }
}

/// However the attempts fail, no more are made than configured, and always at least one; where all
/// of them fail in a way that may pass, exactly that many are made.
pub proof fn law_attempts_are_bounded(
    retry: RetryConfig,
    attempt: usize,
    failures: spec_fn(usize) -> Option<RpcFailureView>,
)
    requires
        1 <= attempt <= retry.attempts(),
    ensures
        1 <= attempts_made(retry, attempt, failures) <= retry.attempts() - attempt + 1,
        (forall|n: usize|
            (#[trigger] failures(n) matches Some(failure) && worth_retrying(failure)))
            ==> attempts_made(retry, attempt, failures) == retry.attempts() - attempt + 1,
    decreases retry.attempts() - attempt,
{
    match failures(attempt) {
        Some(failure) => if retries(retry, attempt, failure) {
            law_attempts_are_bounded(retry, (attempt + 1) as usize, failures);
        },
        None => {},
    }
}

} // verus!
