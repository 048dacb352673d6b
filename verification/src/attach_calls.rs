//! What callers can count on when a volume is attached, when time is measured, and when a failure is
//! told.
//!
//! `call_ensures(f, args, r)` says that `f`, called with `args`, returned `r`.
use crate::attach::AttachConfig;
use crate::engine::EngineConfig;
use crate::errors::{EngineError, TransportError};
use crate::nbd::NbdConfig;
use crate::session::VolumeSessionConfig;
use crate::time::Duration;
use vstd::prelude::*;

verus! {

/// Session, engine and device are set up as the attachment is.
pub proof fn law_parts_are_set_up_as_the_whole(
    config: AttachConfig,
    session: VolumeSessionConfig,
    engine: EngineConfig,
    nbd: NbdConfig,
)
    requires
        call_ensures(AttachConfig::session_config, (&config,), session),
        call_ensures(AttachConfig::engine_config, (&config,), engine),
        call_ensures(AttachConfig::nbd_config, (&config,), nbd),
    ensures
        session.frontend_endpoint@ == config.frontend_endpoint@,
        session.namespace@ == config.namespace@,
        session.volume_id@ == config.volume_id@,
        session.connect_timeout == config.connect_timeout,
        session.rpc_timeout == config.rpc_timeout,
        session.retry.max_attempts == config.retry_max_attempts,
        session.retry.initial_backoff == config.retry_initial_backoff,
        session.retry.max_backoff == config.retry_max_backoff,
        engine.dirty_high_watermark_blocks == config.dirty_high_watermark_blocks,
        engine.flush_retry_deadline == config.flush_retry_deadline,
        engine.flush_retry_interval == config.flush_retry_interval,
        nbd.device_path@ == config.device_path@,
        nbd.timeout_secs == config.nbd_timeout_secs,
{
}

/// A length of time that is put together from seconds and nanoseconds is taken apart into the same.
pub proof fn law_parts_of_a_length_are_kept(
    secs: u64,
    nanos: u32,
    d: Duration,
    whole: u64,
    rest: u32,
    all: u128,
)
    requires
        nanos < 1_000_000_000,
        call_ensures(Duration::from_parts, (secs, nanos), d),
        call_ensures(Duration::as_secs, (&d,), whole),
        call_ensures(Duration::subsec_nanos, (&d,), rest),
        call_ensures(Duration::as_nanos, (&d,), all),
    ensures
        whole == secs,
        rest == nanos,
        all == 1_000_000_000 * secs + nanos,
{
}

/// A thousand milliseconds are as long as a second.
pub proof fn law_units_agree(secs: u64, millis: u64, a: Duration, b: Duration, shorter: bool)
    requires
        call_ensures(Duration::from_secs, (secs,), a),
        call_ensures(Duration::from_millis, (millis,), b),
        call_ensures(Duration::shorter_than, (&a, b), shorter),
    ensures
        millis == 1000 * secs ==> a@ == b@,
        shorter <==> 1000 * secs < millis,
        a@ == 1_000_000_000 * secs,
{
}

/// A length of time is multiplied exactly, where the product is not too long to be told.
pub proof fn law_lengths_are_multiplied(
    d: Duration,
    factor: u32,
    r: Option<Duration>,
    nanos: u128,
)
    requires
        call_ensures(Duration::as_nanos, (&d,), nanos),
        call_ensures(Duration::checked_mul, (&d, factor), r),
    ensures
        r is Some <==> nanos * factor <= 18446744073709551615999999999,
        r matches Some(product) ==> product@ == nanos * factor,
{
}

/// A failure to be tried again is told from one that is not, and both are told in words.
pub proof fn law_failures_are_told(
    message: &str,
    passing: TransportError,
    lasting: TransportError,
    first: bool,
    second: bool,
    first_words: String,
    second_words: String,
)
    requires
        call_ensures(TransportError::retryable, (message,), passing),
        call_ensures(TransportError::terminal, (message,), lasting),
        call_ensures(TransportError::is_retryable, (&passing,), first),
        call_ensures(TransportError::is_retryable, (&lasting,), second),
        call_ensures(TransportError::describe, (&passing,), first_words),
        call_ensures(TransportError::describe, (&lasting,), second_words),
    ensures
        first,
        !second,
        first_words@ == "retryable transport error: "@ + message@,
        second_words@ == "terminal transport error: "@ + message@,
{
}

/// Whether a failure is tried again is told by its kind alone.
pub proof fn law_kind_tells_whether_to_try_again(e: TransportError, r: bool)
    requires
        call_ensures(TransportError::is_retryable, (&e,), r),
    ensures
        r <==> e is Retryable,
{
}

/// The fault of a request and that of the backend are told apart, by number and in words.
pub proof fn law_faults_are_told(
    message: &str,
    request: EngineError,
    backend: EngineError,
    first: i32,
    second: i32,
    first_words: String,
    second_words: String,
)
    requires
        call_ensures(EngineError::invalid, (message,), request),
        call_ensures(EngineError::io, (message,), backend),
        call_ensures(EngineError::errno, (&request,), first),
        call_ensures(EngineError::errno, (&backend,), second),
        call_ensures(EngineError::describe, (&request,), first_words),
        call_ensures(EngineError::describe, (&backend,), second_words),
    ensures
        request is InvalidRequest,
        backend is Io,
        first == 22,
        second == 5,
        first_words@ == "invalid request: "@ + message@,
        second_words@ == "i/o error: "@ + message@,
{
}

} // verus!
