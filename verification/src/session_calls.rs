//! What callers of the remote service can count on, call by call and from one call to the next.
//!
//! `call_ensures(f, args, r)` says that `f`, called with `args`, returned `r`; of a session that is
//! passed to be changed, `old(..)` is the session before the call and `final(..)` the one after it.
use crate::endpoint;
use crate::engine::{BlockWrite, VolumeGeometry};
use crate::engine;
use crate::errors::{EngineError, TransportError};
use crate::ordered;
use crate::rpc::{Code, RetryConfig, RetryDecision, RpcFailure, RpcReply, RpcStep};
use crate::rpc;
use crate::session::{
    OpenAnswer, OpenCall, ReadCall, VolumeSession, VolumeSessionConfig, WriteCall,
};
use crate::session;
use crate::text;
use crate::time::Duration;
use crate::time;
use vstd::prelude::*;

verus! {

/// The codes that say that a call may succeed when it is made again.
pub open spec fn passing(code: Code) -> bool {
    ||| code is Cancelled
    ||| code is Unknown
    ||| code is DeadlineExceeded
    ||| code is ResourceExhausted
    ||| code is Aborted
    ||| code is Internal
    ||| code is Unavailable
}

/// A call is worth repeating after exactly these codes.
pub proof fn law_passing_codes_are_told_from_lasting_ones(code: Code, r: bool)
    requires
        call_ensures(rpc::is_retryable_status, (code,), r),
    ensures
        r <==> passing(code),
{
}

/// A code is known by its number, and any number that is none of a code is unknown.
pub proof fn law_codes_have_numbers(number: i32, code: Code, back: i32)
    requires
        call_ensures(Code::from_i32, (number,), code),
        call_ensures(Code::to_i32, (&code,), back),
    ensures
        0 <= number <= 16 ==> back == number,
        number < 0 || number > 16 ==> code is Unknown,
        number == 0 <==> code is Success,
        number == 1 <==> code is Cancelled,
        number == 2 ==> code is Unknown,
        number == 3 <==> code is InvalidArgument,
        number == 4 <==> code is DeadlineExceeded,
        number == 5 <==> code is NotFound,
        number == 6 <==> code is AlreadyExists,
        number == 7 <==> code is PermissionDenied,
        number == 8 <==> code is ResourceExhausted,
        number == 9 <==> code is FailedPrecondition,
        number == 10 <==> code is Aborted,
        number == 11 <==> code is OutOfRange,
        number == 12 <==> code is Unimplemented,
        number == 13 <==> code is Internal,
        number == 14 <==> code is Unavailable,
        number == 15 <==> code is DataLoss,
        number == 16 <==> code is Unauthenticated,
{
}

/// Every code has its number.
pub proof fn law_codes_tell_their_numbers(code: Code, number: i32)
    requires
        call_ensures(Code::to_i32, (&code,), number),
    ensures
        number == 0 <==> code is Success,
        number == 1 <==> code is Cancelled,
        number == 2 <==> code is Unknown,
        number == 3 <==> code is InvalidArgument,
        number == 4 <==> code is DeadlineExceeded,
        number == 5 <==> code is NotFound,
        number == 6 <==> code is AlreadyExists,
        number == 7 <==> code is PermissionDenied,
        number == 8 <==> code is ResourceExhausted,
        number == 9 <==> code is FailedPrecondition,
        number == 10 <==> code is Aborted,
        number == 11 <==> code is OutOfRange,
        number == 12 <==> code is Unimplemented,
        number == 13 <==> code is Internal,
        number == 14 <==> code is Unavailable,
        number == 15 <==> code is DataLoss,
        number == 16 <==> code is Unauthenticated,
{
}

/// Every code is told in its own words.
pub proof fn law_codes_are_told_in_words(code: Code, words: String)
    requires
        call_ensures(Code::describe, (&code,), words),
    ensures
        code is Success ==> words@ == "The operation completed successfully"@,
        code is Cancelled ==> words@ == "The operation was cancelled"@,
        code is Unknown ==> words@ == "Unknown error"@,
        code is InvalidArgument ==> words@ == "Client specified an invalid argument"@,
        code is DeadlineExceeded ==> words@ == "Deadline expired before operation could complete"@,
        code is NotFound ==> words@ == "Some requested entity was not found"@,
        code is AlreadyExists ==> words@
            == "Some entity that we attempted to create already exists"@,
        code is PermissionDenied ==> words@
            == "The caller does not have permission to execute the specified operation"@,
        code is ResourceExhausted ==> words@ == "Some resource has been exhausted"@,
        code is FailedPrecondition ==> words@
            == "The system is not in a state required for the operation's execution"@,
        code is Aborted ==> words@ == "The operation was aborted"@,
        code is OutOfRange ==> words@ == "Operation was attempted past the valid range"@,
        code is Unimplemented ==> words@ == "Operation is not implemented or not supported"@,
        code is Internal ==> words@ == "Internal error"@,
        code is Unavailable ==> words@ == "The service is currently unavailable"@,
        code is DataLoss ==> words@ == "Unrecoverable data loss or corruption"@,
        code is Unauthenticated ==> words@
            == "The request does not have valid authentication credentials"@,
{
}

/// A call that ended with a status is told as that, and as one to be made again exactly where it is
/// said so.
pub proof fn law_status_is_told(
    operation: &str,
    code: Code,
    message: &str,
    again: bool,
    e: TransportError,
    described: String,
)
    requires
        call_ensures(rpc::status_to_transport, (operation, code, message, again), e),
        call_ensures(Code::describe, (&code,), described),
    ensures
        ({
            let told = operation@ + " failed with "@ + described@ + " ("@ + message@ + ")"@;
            match e {
                TransportError::Retryable { message: m } => again && m@ == told,
                TransportError::Terminal { message: m } => !again && m@ == told,
            }
        }),
{
}

/// Where nothing is said, a call is made five times at most, with waits from 150 milliseconds to two
/// seconds.
pub proof fn law_calls_are_repeated_five_times(retry: RetryConfig)
    requires
        call_ensures(RetryConfig::default, (), retry),
    ensures
        retry.max_attempts == 5,
        retry.initial_backoff@ == 150 * 1_000_000,
        retry.max_backoff@ == 2 * 1_000_000_000,
{
}

/// A call is made as often as configured, and at least once.
pub proof fn law_calls_are_made_at_least_once(retry: RetryConfig, r: usize)
    requires
        call_ensures(RetryConfig::capped_attempts, (&retry,), r),
    ensures
        r >= 1,
        r >= retry.max_attempts,
        r <= retry.max_attempts || r == 1,
{
}

/// The first wait is the configured one, up to the limit.
pub proof fn law_first_wait_is_the_configured_one(retry: RetryConfig, attempt: usize, d: Duration)
    requires
        attempt <= 1,
        retry.initial_backoff@ <= time::MAX_NANOS,
        call_ensures(RetryConfig::delay_for_attempt, (&retry, attempt), d),
    ensures
        d@ == ordered::smaller(retry.initial_backoff@ as int, retry.max_backoff@ as int),
        d@ == retry.initial_backoff@ || d@ == retry.max_backoff@,
        d@ <= retry.initial_backoff@,
        d@ <= retry.max_backoff@,
{
    vstd::arithmetic::power2::lemma2_to64();
    assert(retry.initial_backoff@ * 1 == retry.initial_backoff@);
}

/// Each wait is twice the one before, up to the limit; after twelve doublings they stay the same.
pub proof fn law_waits_double(retry: RetryConfig, attempt: usize, d: Duration, next: Duration)
    requires
        1 <= attempt < usize::MAX,
        retry.max_backoff@ <= time::MAX_NANOS,
        call_ensures(RetryConfig::delay_for_attempt, (&retry, attempt), d),
        call_ensures(RetryConfig::delay_for_attempt, (&retry, (attempt + 1) as usize), next),
    ensures
        attempt > 12 ==> next@ == d@,
        attempt <= 12 ==> if 2 * d@ <= retry.max_backoff@ {
            next@ == 2 * d@
        } else {
            next@ == retry.max_backoff@
        },
{
    if attempt <= 12 {
        let k = (attempt - 1) as nat;
        vstd::arithmetic::power2::lemma_pow2_unfold(k + 1);
        let a = retry.initial_backoff@;
        let p = vstd::arithmetic::power2::pow2(k);
        let q = vstd::arithmetic::power2::pow2(k + 1);
        assert(a * q == 2 * (a * p)) by (nonlinear_arith)
            requires
                q == 2 * p,
        ;
    }
}

/// The longest wait is never longer than the limit.
pub proof fn law_waits_are_limited(retry: RetryConfig, attempt: usize, d: Duration)
    requires
        call_ensures(RetryConfig::delay_for_attempt, (&retry, attempt), d),
    ensures
        d@ <= retry.max_backoff@,
{
}

/// How often a call may be made.
pub open spec fn tries(retry: RetryConfig) -> int {
    if retry.max_attempts == 0 {
        1
    } else {
        retry.max_attempts as int
    }
}

/// Whether `e` says that `operation` ended with this status; `described` is the code in words. It
/// says that the failure may pass where the code does.
pub open spec fn tells_status(
    e: TransportError,
    operation: Seq<char>,
    code: Code,
    described: Seq<char>,
    message: Seq<char>,
) -> bool {
    let told = operation + " failed with "@ + described + " ("@ + message + ")"@;
    match e {
        TransportError::Retryable { message: m } => passing(code) && m@ == told,
        TransportError::Terminal { message: m } => !passing(code) && m@ == told,
    }
}

/// Whether `e` says that `operation` was not answered in time, however often it was made.
pub open spec fn tells_timeout(e: TransportError, operation: Seq<char>, retry: RetryConfig) -> bool {
    e matches TransportError::Retryable { message: m } && m@ == operation + " timed out after "@
        + text::decimal(tries(retry) as nat) + " attempts"@
}

/// After a failed attempt another one is made, after its wait, where the failure may pass and the
/// last attempt has not been made; else the failure is told.
pub proof fn law_failed_attempts_are_repeated(
    retry: RetryConfig,
    operation: &str,
    attempt: usize,
    failure: RpcFailure,
    r: RetryDecision,
    wait: Duration,
    described: String,
)
    requires
        call_ensures(rpc::after_failure, (&retry, operation, attempt, failure), r),
        call_ensures(RetryConfig::delay_for_attempt, (&retry, attempt), wait),
        failure matches RpcFailure::Status { code, .. } ==> call_ensures(
            Code::describe,
            (&code,),
            described,
        ),
    ensures
        ({
            let may_pass = match failure {
                RpcFailure::Status { code, .. } => passing(code),
                _ => true,
            };
            match r {
                RetryDecision::Wait(d) => may_pass && attempt < tries(retry) && d@ == wait@,
                RetryDecision::GiveUp(e) => (!may_pass || attempt >= tries(retry)) && match failure {
                    RpcFailure::Status { code, message } => tells_status(
                        e,
                        operation@,
                        code,
                        described@,
                        message@,
                    ),
                    RpcFailure::TimedOut => tells_timeout(e, operation@, retry),
                    RpcFailure::Connect { message } => e matches TransportError::Retryable {
                        message: m,
                    } && m@ == message@,
                },
            }
        }),
{
}

/// Whether a step is the right one after `call`, the attempt number `attempt` to do `operation`,
/// ended with a status: the same call again after its wait, or the end with that very status.
pub open spec fn status_is_handled<C, R>(
    retry: RetryConfig,
    operation: Seq<char>,
    call: C,
    attempt: usize,
    code: Code,
    described: Seq<char>,
    message: Seq<char>,
    wait: Duration,
    step: RpcStep<C, R>,
) -> bool {
    if passing(code) && attempt < tries(retry) {
        step matches RpcStep::Sleep(again, d) && again == call && d@ == wait@
    } else {
        step matches RpcStep::Done(Err(e)) && tells_status(e, operation, code, described, message)
    }
}

/// Whether a step is the right one after a call was not answered in time.
pub open spec fn timeout_is_handled<C, R>(
    retry: RetryConfig,
    operation: Seq<char>,
    call: C,
    attempt: usize,
    wait: Duration,
    step: RpcStep<C, R>,
) -> bool {
    if attempt < tries(retry) {
        step matches RpcStep::Sleep(again, d) && again == call && d@ == wait@
    } else {
        step matches RpcStep::Done(Err(e)) && tells_timeout(e, operation, retry)
    }
}

/// Whether a step is the right one after no connection could be made, for this reason.
pub open spec fn no_connection_is_handled<C, R>(
    retry: RetryConfig,
    call: C,
    attempt: usize,
    reason: Seq<char>,
    wait: Duration,
    step: RpcStep<C, R>,
) -> bool {
    if attempt < tries(retry) {
        step matches RpcStep::Sleep(again, d) && again == call && d@ == wait@
    } else {
        step matches RpcStep::Done(Err(TransportError::Retryable { message: m })) && m@ == reason
    }
}

/// An address gets a scheme where it has none, and keeps it where it has one.
pub proof fn law_address_gets_a_scheme(raw: &str, r: String)
    requires
        call_ensures(endpoint::normalize_endpoint, (raw,), r),
    ensures
        ({
            let plain = "http://"@;
            let safe = "https://"@;
            let has_scheme = (raw@.len() >= plain.len() && raw@.take(plain.len() as int) == plain)
                || (raw@.len() >= safe.len() && raw@.take(safe.len() as int) == safe);
            r@ == if has_scheme {
                raw@
            } else {
                plain + raw@
            }
        }),
{
}

/// Opening a volume starts with the first attempt to connect, to the address that was given a
/// scheme.
pub proof fn law_opening_starts_with_a_connection(
    config: VolumeSessionConfig,
    step: RpcStep<OpenCall, VolumeSession>,
    address: &str,
    url: String,
)
    requires
        address@ == config.frontend_endpoint@,
        call_ensures(endpoint::normalize_endpoint, (address,), url),
        call_ensures(VolumeSession::connect_and_open, (config,), step),
    ensures
        step matches RpcStep::Connect(call) && call.config == config && call.attempt == 1
            && call.endpoint_url@ == url@,
{
}

/// Once connected, the call to open the volume is made; else another attempt to connect, or none
/// any more.
pub proof fn law_opening_goes_on_once_connected(
    call: OpenCall,
    connected: Result<(), String>,
    step: RpcStep<OpenCall, VolumeSession>,
    wait: Duration,
)
    requires
        call_ensures(VolumeSession::open_connected, (call, connected), step),
        call_ensures(
            RetryConfig::delay_for_attempt,
            (&call.config.retry, call.attempt),
            wait,
        ),
    ensures
        match connected {
            Ok(()) => step == RpcStep::<OpenCall, VolumeSession>::Call(call),
            Err(detail) => no_connection_is_handled(
                call.config.retry,
                call,
                call.attempt,
                "connect failed after "@ + text::decimal(tries(call.config.retry) as nat)
                    + " attempts: "@ + detail@,
                wait,
                step,
            ),
        },
{
}

/// The decision to try again to open a volume, and what is told where it is not, are those for the
/// very status with which the call ended.
pub proof fn law_opening_heeds_the_status(
    call: OpenCall,
    code: Code,
    message: String,
    step: RpcStep<OpenCall, VolumeSession>,
    described: String,
    wait: Duration,
)
    requires
        call_ensures(
            VolumeSession::open_answered,
            (call, RpcReply::Status { code, message }),
            step,
        ),
        call_ensures(Code::describe, (&code,), described),
        call_ensures(
            RetryConfig::delay_for_attempt,
            (&call.config.retry, call.attempt),
            wait,
        ),
    ensures
        status_is_handled(
            call.config.retry,
            "OpenVolume"@,
            call,
            call.attempt,
            code,
            described@,
            message@,
            wait,
            step,
        ),
{
}

/// An opening that is not answered in time is tried again, or is over.
pub proof fn law_opening_may_time_out(
    call: OpenCall,
    step: RpcStep<OpenCall, VolumeSession>,
    wait: Duration,
)
    requires
        call_ensures(VolumeSession::open_answered, (call, RpcReply::TimedOut), step),
        call_ensures(
            RetryConfig::delay_for_attempt,
            (&call.config.retry, call.attempt),
            wait,
        ),
    ensures
        timeout_is_handled(
            call.config.retry,
            "OpenVolume"@,
            call,
            call.attempt,
            wait,
            step,
        ),
{
}

/// Whether an answer tells of the volume that was asked for, and of a size in whole blocks.
pub open spec fn is_sound(volume_id: Seq<char>, answer: OpenAnswer) -> bool {
    &&& answer.volume_id@ == volume_id
    &&& answer.size_bytes > 0
    &&& answer.block_size_bytes > 0
    &&& exists|n: int|
        #![trigger n * answer.block_size_bytes]
        n * answer.block_size_bytes == answer.size_bytes
}

/// Whether a geometry is the one that an answer tells of.
pub open spec fn is_told(geometry: VolumeGeometry, answer: OpenAnswer) -> bool {
    &&& geometry.size_bytes == answer.size_bytes
    &&& geometry.block_size_bytes == answer.block_size_bytes
    &&& geometry.total_blocks * answer.block_size_bytes == answer.size_bytes
}

proof fn lemma_sound(volume_id: Seq<char>, answer: OpenAnswer)
    ensures
        match session::opened(volume_id, answer) {
            Ok(g) => is_sound(volume_id, answer) && is_told(g, answer),
            Err(e) => !is_sound(volume_id, answer) && e is Terminal,
        },
{
    let bs = answer.block_size_bytes as int;
    let size = answer.size_bytes as int;
    if bs > 0 && size > 0 {
        vstd::arithmetic::div_mod::lemma_fundamental_div_mod(size, bs);
        if size % bs == 0 {
            assert((size / bs) * bs == size) by (nonlinear_arith)
                requires
                    size == bs * (size / bs),
            ;
            assert((size / bs) * answer.block_size_bytes == size);
            vstd::arithmetic::div_mod::lemma_div_is_ordered_by_denominator(size, 1, bs);
            vstd::arithmetic::div_mod::lemma_div_pos_is_pos(size, bs);
        }
        assert forall|n: int|
            #![trigger n * answer.block_size_bytes]
            n * answer.block_size_bytes == size implies size % bs == 0 by {
            vstd::arithmetic::div_mod::lemma_mod_multiples_basic(n, bs);
        }
    }
}

/// The answer to an opening is accepted where it is sound, and gives the geometry that it tells of;
/// an answer that is not is of no use however often it is asked for.
pub proof fn law_sound_answers_are_accepted(
    volume_id: String,
    answer: OpenAnswer,
    r: Result<VolumeGeometry, TransportError>,
)
    requires
        call_ensures(session::accept_open, (&volume_id, &answer), r),
    ensures
        r is Ok <==> is_sound(volume_id@, answer),
        r matches Ok(g) ==> is_told(g, answer),
        r matches Err(e) ==> e is Terminal,
{
    lemma_sound(volume_id@, answer);
}

/// Sizes that make no volume are told as such, in the words of what is wrong with them.
pub proof fn law_unsound_sizes_are_told(
    volume_id: String,
    answer: OpenAnswer,
    r: Result<VolumeGeometry, TransportError>,
    wrong: EngineError,
    words: String,
)
    requires
        call_ensures(session::accept_open, (&volume_id, &answer), r),
        answer.volume_id@ == volume_id@,
        answer.size_bytes >= 0,
        answer.block_size_bytes >= 0,
        call_ensures(
            VolumeGeometry::new,
            (answer.size_bytes as u64, answer.block_size_bytes as u32),
            Err(wrong),
        ),
        call_ensures(EngineError::describe, (&wrong,), words),
    ensures
        r matches Err(TransportError::Terminal { message }) && message@
            == "invalid volume geometry from OpenVolume: "@ + words@,
{
}

/// An opening whose answer is not sound is over, with what is said of such an answer.
pub proof fn law_unsound_answer_ends_the_opening(
    call: OpenCall,
    answer: OpenAnswer,
    step: RpcStep<OpenCall, VolumeSession>,
    wrong: TransportError,
)
    requires
        call_ensures(VolumeSession::open_answered, (call, RpcReply::Answer(answer)), step),
        call_ensures(session::accept_open, (&call.config.volume_id, &answer), Err(wrong)),
    ensures
        step matches RpcStep::Done(Err(TransportError::Terminal { message }))
            && wrong matches TransportError::Terminal { message: m } && message@ == m@,
{
    lemma_sound(call.config.volume_id@, answer);
}

/// A session begins connected, with the settings that it was asked for, the geometry that the
/// service told of, and nothing sent. Without a sound answer there is none.
pub proof fn law_session_begins_with_a_sound_answer(
    call: OpenCall,
    answer: OpenAnswer,
    step: RpcStep<OpenCall, VolumeSession>,
)
    requires
        call_ensures(VolumeSession::open_answered, (call, RpcReply::Answer(answer)), step),
    ensures
        match step {
            RpcStep::Done(Ok(s)) => {
                &&& is_sound(call.config.volume_id@, answer)
                &&& is_told(s.geometry, answer)
                &&& s.connected
                &&& s.config == call.config
                &&& s.endpoint_url == call.endpoint_url
                &&& s.write_rpc_sent == 0
                &&& s.write_payload_bytes_sent == 0
                &&& s.write_blocks_sent == 0
            },
            RpcStep::Done(Err(e)) => !is_sound(call.config.volume_id@, answer) && e is Terminal,
            _ => false,
        },
{
    lemma_sound(call.config.volume_id@, answer);
}

/// After a wait an opening connects anew, as its next attempt.
pub proof fn law_opening_is_resumed(call: OpenCall, step: RpcStep<OpenCall, VolumeSession>)
    requires
        call.attempt < tries(call.config.retry),
        call_ensures(VolumeSession::open_resumed, (call,), step),
    ensures
        step matches RpcStep::Connect(next) && next.attempt == call.attempt + 1 && next.config
            == call.config && next.endpoint_url == call.endpoint_url,
{
}

/// A session tells the geometry of its volume.
pub proof fn law_session_tells_its_geometry(s: VolumeSession, g: VolumeGeometry)
    requires
        call_ensures(VolumeSession::geometry, (&s,), g),
    ensures
        g == s.geometry,
{
}

/// Whether two sessions differ at most in whether they are connected.
pub open spec fn same_but_for_the_connection(a: VolumeSession, b: VolumeSession) -> bool {
    &&& a.config == b.config
    &&& a.endpoint_url == b.endpoint_url
    &&& a.geometry == b.geometry
    &&& a.write_rpc_sent == b.write_rpc_sent
    &&& a.write_payload_bytes_sent == b.write_payload_bytes_sent
    &&& a.write_blocks_sent == b.write_blocks_sent
}

/// A session that is let go has no connection any more; that never fails.
pub proof fn law_session_is_let_go(s: &mut VolumeSession, r: Result<(), TransportError>)
    requires
        call_ensures(VolumeSession::disconnect, (s,), r),
    ensures
        r is Ok,
        !final(s).connected,
        same_but_for_the_connection(*final(s), *old(s)),
{
}

/// A read starts with its first attempt: with the call where there is a connection, else by
/// connecting.
pub proof fn law_read_starts(
    s: VolumeSession,
    start_lba: u64,
    block_count: u32,
    step: RpcStep<ReadCall, Vec<u8>>,
)
    requires
        call_ensures(VolumeSession::read_blocks, (&s, start_lba, block_count), step),
    ensures
        match step {
            RpcStep::Call(call) => s.connected && call.start_lba == start_lba && call.block_count
                == block_count && call.attempt == 1,
            RpcStep::Connect(call) => !s.connected && call.start_lba == start_lba
                && call.block_count == block_count && call.attempt == 1,
            _ => false,
        },
{
}

/// After a wait a read makes its next attempt.
pub proof fn law_read_is_resumed(
    s: VolumeSession,
    call: ReadCall,
    step: RpcStep<ReadCall, Vec<u8>>,
)
    requires
        call.attempt < tries(s.config.retry),
        call_ensures(VolumeSession::read_resumed, (&s, call), step),
    ensures
        match step {
            RpcStep::Call(next) => s.connected && next.start_lba == call.start_lba
                && next.block_count == call.block_count && next.attempt == call.attempt + 1,
            RpcStep::Connect(next) => !s.connected && next.start_lba == call.start_lba
                && next.block_count == call.block_count && next.attempt == call.attempt + 1,
            _ => false,
        },
{
}

/// Once connected, a read makes its call; else another attempt to connect, or none any more.
pub proof fn law_read_goes_on_once_connected(
    s: &mut VolumeSession,
    call: ReadCall,
    connected: Result<(), String>,
    step: RpcStep<ReadCall, Vec<u8>>,
    wait: Duration,
)
    requires
        call_ensures(VolumeSession::read_connected, (s, call, connected), step),
        call_ensures(
            RetryConfig::delay_for_attempt,
            (&old(s).config.retry, call.attempt),
            wait,
        ),
    ensures
        same_but_for_the_connection(*final(s), *old(s)),
        match connected {
            Ok(()) => final(s).connected && step == RpcStep::<ReadCall, Vec<u8>>::Call(call),
            Err(detail) => final(s).connected == old(s).connected && no_connection_is_handled(
                old(s).config.retry,
                call,
                call.attempt,
                "reconnect failed: "@ + detail@,
                wait,
                step,
            ),
        },
{
}

/// A read that is answered is done with the bytes of the answer. One that ends with a status, or not
/// in time, costs the connection; whether it is made again, and what is told where it is not, are
/// decided by that very status.
pub proof fn law_read_heeds_the_answer(
    s: &mut VolumeSession,
    call: ReadCall,
    reply: RpcReply<Vec<u8>>,
    step: RpcStep<ReadCall, Vec<u8>>,
    described: String,
    wait: Duration,
)
    requires
        call_ensures(VolumeSession::read_answered, (s, call, reply), step),
        reply matches RpcReply::Status { code, .. } ==> call_ensures(
            Code::describe,
            (&code,),
            described,
        ),
        call_ensures(
            RetryConfig::delay_for_attempt,
            (&old(s).config.retry, call.attempt),
            wait,
        ),
    ensures
        same_but_for_the_connection(*final(s), *old(s)),
        final(s).connected == (old(s).connected && reply is Answer),
        match reply {
            RpcReply::Answer(data) => step matches RpcStep::Done(Ok(bytes)) && bytes@ == data@,
            RpcReply::Status { code, message } => status_is_handled(
                old(s).config.retry,
                "ReadBlocks"@,
                call,
                call.attempt,
                code,
                described@,
                message@,
                wait,
                step,
            ),
            RpcReply::TimedOut => timeout_is_handled(
                old(s).config.retry,
                "ReadBlocks"@,
                call,
                call.attempt,
                wait,
                step,
            ),
        },
{
}

/// Whether a step is the first attempt at the next part of a batch: at most 64 blocks from number
/// `from` on, all that are left where they are no more; or the end where none is left.
pub open spec fn starts_part(
    connected: bool,
    writes: Vec<BlockWrite>,
    from: int,
    step: RpcStep<WriteCall, ()>,
) -> bool {
    let left = writes@.len() - from;
    if left <= 0 {
        step == RpcStep::<WriteCall, ()>::Done(Ok(()))
    } else {
        match step {
            RpcStep::Call(call) => connected && call.writes == writes && call.from == from
                && call.attempt == 1 && call.count == if left <= 64 {
                left
            } else {
                64
            },
            RpcStep::Connect(call) => !connected && call.writes == writes && call.from == from
                && call.attempt == 1 && call.count == if left <= 64 {
                left
            } else {
                64
            },
            _ => false,
        }
    }
}

/// A batch starts with its first blocks.
pub proof fn law_batch_starts_with_its_first_blocks(
    s: VolumeSession,
    writes: Vec<BlockWrite>,
    step: RpcStep<WriteCall, ()>,
)
    requires
        call_ensures(VolumeSession::write_batch, (&s, writes), step),
    ensures
        starts_part(s.connected, writes, 0, step),
{
    assert(writes.len() == writes@.len());
}

/// After a wait a write makes its next attempt, with the same blocks.
pub proof fn law_write_is_resumed(
    s: VolumeSession,
    call: WriteCall,
    step: RpcStep<WriteCall, ()>,
)
    requires
        call.attempt < tries(s.config.retry),
        call_ensures(VolumeSession::write_resumed, (&s, call), step),
    ensures
        match step {
            RpcStep::Call(next) => s.connected && next.writes == call.writes && next.from
                == call.from && next.count == call.count && next.attempt == call.attempt + 1,
            RpcStep::Connect(next) => !s.connected && next.writes == call.writes && next.from
                == call.from && next.count == call.count && next.attempt == call.attempt + 1,
            _ => false,
        },
{
}

/// Once connected, a write makes its call; else another attempt to connect, or none any more.
pub proof fn law_write_goes_on_once_connected(
    s: &mut VolumeSession,
    call: WriteCall,
    connected: Result<(), String>,
    step: RpcStep<WriteCall, ()>,
    wait: Duration,
)
    requires
        call_ensures(VolumeSession::write_connected, (s, call, connected), step),
        call_ensures(
            RetryConfig::delay_for_attempt,
            (&old(s).config.retry, call.attempt),
            wait,
        ),
    ensures
        same_but_for_the_connection(*final(s), *old(s)),
        match connected {
            Ok(()) => final(s).connected && step == RpcStep::<WriteCall, ()>::Call(call),
            Err(detail) => final(s).connected == old(s).connected && no_connection_is_handled(
                old(s).config.retry,
                call,
                call.attempt,
                "reconnect failed: "@ + detail@,
                wait,
                step,
            ),
        },
{
}

/// A part of a batch that ends with a status, or not in time, costs the connection and is not
/// counted; whether it is made again, and what is told where it is not, are decided by that very
/// status.
pub proof fn law_write_heeds_the_status(
    s: &mut VolumeSession,
    call: WriteCall,
    reply: RpcReply<()>,
    step: RpcStep<WriteCall, ()>,
    described: String,
    wait: Duration,
)
    requires
        call.wf(),
        !(reply is Answer),
        call_ensures(VolumeSession::write_answered, (s, call, reply), step),
        reply matches RpcReply::Status { code, .. } ==> call_ensures(
            Code::describe,
            (&code,),
            described,
        ),
        call_ensures(
            RetryConfig::delay_for_attempt,
            (&old(s).config.retry, call.attempt),
            wait,
        ),
    ensures
        same_but_for_the_connection(*final(s), *old(s)),
        !final(s).connected,
        match reply {
            RpcReply::Status { code, message } => status_is_handled(
                old(s).config.retry,
                "WriteBatch"@,
                call,
                call.attempt,
                code,
                described@,
                message@,
                wait,
                step,
            ),
            _ => timeout_is_handled(
                old(s).config.retry,
                "WriteBatch"@,
                call,
                call.attempt,
                wait,
                step,
            ),
        },
{
}

/// A part of a batch that is answered is counted, as far as can be counted, and the next part
/// follows over the same connection.
pub proof fn law_answered_part_is_counted(
    s: &mut VolumeSession,
    call: WriteCall,
    step: RpcStep<WriteCall, ()>,
    part: &[BlockWrite],
    summary: Option<(usize, u64, u64)>,
)
    requires
        call.wf(),
        call_ensures(VolumeSession::write_answered, (s, call, RpcReply::Answer(())), step),
        part@ == call.writes@.subrange(call.from as int, call.from + call.count),
        call_ensures(session::summarize_writes, (part,), summary),
    ensures
        final(s).connected == old(s).connected,
        final(s).config == old(s).config,
        final(s).endpoint_url == old(s).endpoint_url,
        final(s).geometry == old(s).geometry,
        final(s).write_rpc_sent == old(s).write_rpc_sent + 1 || final(s).write_rpc_sent == old(
            s,
        ).write_rpc_sent == u64::MAX,
        final(s).write_blocks_sent == ordered::smaller(
            old(s).write_blocks_sent + call.count,
            u64::MAX as int,
        ),
        summary matches Some((bytes, _, _)) && final(s).write_payload_bytes_sent
            == ordered::smaller(old(s).write_payload_bytes_sent + bytes, u64::MAX as int),
        starts_part(old(s).connected, call.writes, call.from + call.count, step),
{
    assert(call.writes.len() == call.writes@.len());
    assert(engine::writes_view(part@) =~= session::carried(call));
}

/// The smaller of two numbers is one of them, and neither is less.
pub proof fn law_smaller_is_the_lesser(a: int, b: int)
    ensures
        ordered::smaller(a, b) <= a,
        ordered::smaller(a, b) <= b,
        ordered::smaller(a, b) == a || ordered::smaller(a, b) == b,
{
}

/// What is said of an answer that is not sound: first of the volume, then of the size, then of the
/// size of a block.
pub proof fn law_unsound_answers_are_told(
    volume_id: String,
    answer: OpenAnswer,
    r: Result<VolumeGeometry, TransportError>,
)
    requires
        call_ensures(session::accept_open, (&volume_id, &answer), r),
    ensures
        answer.volume_id@ != volume_id@ ==> (r matches Err(TransportError::Terminal { message })
            && message@ == "OpenVolume returned mismatched volume_id: got "@ + answer.volume_id@
            + ", want "@ + volume_id@),
        answer.volume_id@ == volume_id@ && answer.size_bytes < 0 ==> (r matches Err(
            TransportError::Terminal { message },
        ) && message@ == "OpenVolume returned invalid size_bytes: "@ + text::signed_decimal(
            answer.size_bytes as int,
        )),
        answer.volume_id@ == volume_id@ && answer.size_bytes >= 0 && answer.block_size_bytes < 0
            ==> (r matches Err(TransportError::Terminal { message }) && message@
            == "OpenVolume returned invalid block_size_bytes: "@ + text::signed_decimal(
            answer.block_size_bytes as int,
        )),
{
}

/// The summary of a batch bounds its addresses, tightly, and there is none of an empty one.
pub proof fn law_summary_bounds_the_addresses(
    writes: &[BlockWrite],
    r: Option<(usize, u64, u64)>,
)
    requires
        call_ensures(session::summarize_writes, (writes,), r),
    ensures
        r is None <==> writes@.len() == 0,
        r matches Some((_, low, high)) ==> {
            &&& forall|i: int|
                0 <= i < writes@.len() ==> low <= (#[trigger] writes@[i]).lba <= high
            &&& exists|i: int| 0 <= i < writes@.len() && (#[trigger] writes@[i]).lba == low
            &&& exists|i: int| 0 <= i < writes@.len() && (#[trigger] writes@[i]).lba == high
        },
{
    let view = engine::writes_view(writes@);
    lemma_bounds(view);
    assert forall|i: int| 0 <= i < writes@.len() implies view[i].lba == (
    #[trigger] writes@[i]).lba by {}
    if writes@.len() > 0 {
        let a = choose|i: int|
            0 <= i < view.len() && (#[trigger] view[i]).lba == session::min_lba(view);
        let b = choose|i: int|
            0 <= i < view.len() && (#[trigger] view[i]).lba == session::max_lba(view);
        assert(writes@[a].lba == session::min_lba(view));
        assert(writes@[b].lba == session::max_lba(view));
        assert forall|i: int| 0 <= i < writes@.len() implies session::min_lba(view) <= (
        #[trigger] writes@[i]).lba <= session::max_lba(view) by {
            assert(view[i].lba == writes@[i].lba);
        }
    }
}

proof fn lemma_bounds(view: Seq<engine::BlockWriteView>)
    ensures
        forall|i: int|
            0 <= i < view.len() ==> session::min_lba(view) <= (#[trigger] view[i]).lba
                <= session::max_lba(view),
        view.len() > 0 ==> exists|i: int|
            0 <= i < view.len() && (#[trigger] view[i]).lba == session::min_lba(view),
        view.len() > 0 ==> exists|i: int|
            0 <= i < view.len() && (#[trigger] view[i]).lba == session::max_lba(view),
    decreases view.len(),
{
    if view.len() > 0 {
        let rest = view.drop_last();
        let n = view.len() - 1;
        lemma_bounds(rest);
        assert(view[n] == view.last());
        assert forall|i: int| 0 <= i < view.len() implies session::min_lba(view) <= (
        #[trigger] view[i]).lba <= session::max_lba(view) by {
            if i < n {
                assert(rest[i] == view[i]);
            }
        }
        if rest.len() > 0 {
            let a = choose|i: int|
                0 <= i < rest.len() && (#[trigger] rest[i]).lba == session::min_lba(rest);
            let b = choose|i: int|
                0 <= i < rest.len() && (#[trigger] rest[i]).lba == session::max_lba(rest);
            assert(view[a] == rest[a] && view[b] == rest[b]);
        }
    }
}

/// The summary counts the data of every block: a batch with one block more counts the bytes of that
/// block more, as far as can be counted.
pub proof fn law_summary_counts_the_data(
    fewer: &[BlockWrite],
    more: &[BlockWrite],
    before: Option<(usize, u64, u64)>,
    after: Option<(usize, u64, u64)>,
)
    requires
        more@.len() == fewer@.len() + 1,
        forall|i: int| 0 <= i < fewer@.len() ==> #[trigger] more@[i] == fewer@[i],
        call_ensures(session::summarize_writes, (fewer,), before),
        call_ensures(session::summarize_writes, (more,), after),
    ensures
        after matches Some((bytes, _, _)) && {
            let had = match before {
                Some((n, _, _)) => n as int,
                None => 0,
            };
            let all = had + more@.last().data@.len();
            bytes == if all <= usize::MAX {
                all
            } else {
                usize::MAX as int
            }
        },
{
    let a = engine::writes_view(fewer@);
    let b = engine::writes_view(more@);
    assert(b.drop_last() =~= a);
    assert(b.last() == more@.last()@);
    assert(session::payload_len(b) == session::payload_len(a) + more@.last().data@.len());
    if fewer@.len() == 0 {
        assert(session::payload_len(a) == 0);
    }
}

} // verus!
