//! What callers can count on when a volume is created, call by call and from one call to the next.
//!
//! `call_ensures(f, args, r)` says that `f`, called with `args`, returned `r`.
use crate::create::{
    ConnectOutcome, CreateStep, CreateTask, CreateVolumeConfig, CreateVolumeOutcome,
    CreateVolumeRequest, CreateVolumeResponse,
};
use crate::create;
use crate::endpoint;
use crate::rpc::{Code, RpcReply};
use crate::text;
use crate::time::Duration;
use vstd::prelude::*;

verus! {

/// A volume of some size is created by connecting first, to the address that was given a scheme. One
/// of no size is not created.
pub proof fn law_creation_starts_with_a_connection(
    config: CreateVolumeConfig,
    step: CreateStep,
    address: &str,
    url: String,
)
    requires
        address@ == config.frontend_endpoint@,
        call_ensures(endpoint::normalize_endpoint, (address,), url),
        call_ensures(create::run_create_volume, (config,), step),
    ensures
        config.size_bytes > 0 ==> (step matches CreateStep::Connect(task) && task.config == config
            && task.endpoint_url@ == url@),
        config.size_bytes == 0 ==> (step matches CreateStep::Done(Err(e)) && e@
            == "size_bytes must be > 0"@),
{
}

/// Whether a request asks for the volume that is configured.
pub open spec fn asks_for(
    request: CreateVolumeRequest,
    config: CreateVolumeConfig,
    request_id: Seq<char>,
) -> bool {
    &&& request.namespace@ == config.namespace@
    &&& request.volume_id@ == config.volume_id@
    &&& request.size_bytes == config.size_bytes
    &&& request.block_size_bytes == config.block_size_bytes
    &&& request.request_id@ == request_id
}

/// A volume can be asked for where its sizes can be told, and is asked for as it is configured.
pub proof fn law_volume_is_asked_for_as_configured(
    config: CreateVolumeConfig,
    request_id: String,
    r: Result<CreateVolumeRequest, String>,
)
    requires
        call_ensures(create::build_create_volume_request, (&config, request_id), r),
    ensures
        r is Ok <==> config.size_bytes <= 0x7fff_ffff_ffff_ffff && config.block_size_bytes
            <= 0x7fff_ffff,
        r matches Ok(request) ==> asks_for(request, config, request_id@),
        config.size_bytes > 0x7fff_ffff_ffff_ffff ==> (r matches Err(e) && e@
            == "size_bytes must be <= i64::MAX"@),
        config.size_bytes <= 0x7fff_ffff_ffff_ffff && config.block_size_bytes > 0x7fff_ffff ==> (
        r matches Err(e) && e@ == "block_size_bytes must be <= i32::MAX"@),
{
}

/// Once connected, the volume is asked for, under the identifier that the caller gave or else the
/// one that was made up. Without a connection it is told why there is none.
pub proof fn law_creation_goes_on_once_connected(
    task: CreateTask,
    outcome: ConnectOutcome,
    made_up: String,
    step: CreateStep,
    request_id: String,
    built: Result<CreateVolumeRequest, String>,
)
    requires
        call_ensures(create::on_connected, (task, outcome, made_up), step),
        task.config.request_id is Some ==> request_id@ == task.config.request_id->0@,
        task.config.request_id is None ==> request_id@ == made_up@,
        call_ensures(create::build_create_volume_request, (&task.config, request_id), built),
    ensures
        match outcome {
            ConnectOutcome::InvalidEndpoint => step matches CreateStep::Done(Err(e)) && e@
                == "invalid frontend endpoint: "@ + task.endpoint_url@,
            ConnectOutcome::Failed => step matches CreateStep::Done(Err(e)) && e@
                == "failed to connect to frontend endpoint: "@ + task.endpoint_url@,
            ConnectOutcome::Connected => match built {
                Ok(_) => step matches CreateStep::Call(same, request) && same == task && asks_for(
                    request,
                    task.config,
                    request_id@,
                ),
                Err(reason) => step matches CreateStep::Done(Err(e)) && e@ == reason@,
            },
        },
{
}

/// An answer is good where it is about the volume that was asked for and names a run.
pub proof fn law_answer_names_volume_and_run(
    response: CreateVolumeResponse,
    expected: String,
    r: Result<(), String>,
)
    requires
        call_ensures(create::validate_create_volume_response, (&response, &expected), r),
    ensures
        r is Ok <==> response.volume_id@ == expected@ && response.run_id@.len() > 0,
        response.volume_id@ != expected@ ==> (r matches Err(e) && e@
            == "CreateVolume returned unexpected volume_id: got "@ + response.volume_id@
            + ", want "@ + expected@),
        response.volume_id@ == expected@ && response.run_id@.len() == 0 ==> (r matches Err(e) && e@
            == "CreateVolume returned empty run_id"@),
{
}

/// A good answer ends the creation with the run that it names, and any other with what is wrong
/// with it.
pub proof fn law_creation_ends_with_a_good_answer(
    task: CreateTask,
    response: CreateVolumeResponse,
    step: CreateStep,
    checked: Result<(), String>,
)
    requires
        call_ensures(create::on_reply, (task, RpcReply::Answer(response)), step),
        call_ensures(
            create::validate_create_volume_response,
            (&response, &task.config.volume_id),
            checked,
        ),
    ensures
        match checked {
            Ok(()) => step matches CreateStep::Done(Ok(CreateVolumeOutcome::Created { run_id }))
                && run_id@ == response.run_id@,
            Err(reason) => step matches CreateStep::Done(Err(e)) && e@ == reason@,
        },
{
}

/// A creation that ends with a status fails with that very status. Only that the volume exists
/// already is a success, where the caller said so.
pub proof fn law_creation_heeds_the_status(
    task: CreateTask,
    code: Code,
    message: String,
    step: CreateStep,
    described: String,
)
    requires
        call_ensures(create::on_reply, (task, RpcReply::Status { code, message }), step),
        call_ensures(Code::describe, (&code,), described),
    ensures
        code is AlreadyExists && task.config.if_not_exists ==> (step matches CreateStep::Done(
            Ok(CreateVolumeOutcome::AlreadyExists),
        )),
        !(code is AlreadyExists && task.config.if_not_exists) ==> (step matches CreateStep::Done(
            Err(e),
        ) && e@ == "CreateVolume"@ + " failed with "@ + described@ + " ("@ + message@ + ")"@),
{
}

/// A creation that is not answered in time fails, and tells how long it was waited for.
pub proof fn law_creation_may_time_out(task: CreateTask, step: CreateStep, seconds: u64)
    requires
        call_ensures(create::on_reply, (task, RpcReply::TimedOut), step),
        call_ensures(Duration::as_secs, (&task.config.rpc_timeout,), seconds),
    ensures
        step matches CreateStep::Done(Err(e)) && e@ == "CreateVolume timed out after "@
            + text::decimal(seconds as nat) + "s"@,
{
}

/// Identifiers that are made up differ where the process or the time does.
pub proof fn law_made_up_identifiers_differ(
    process: u32,
    nanos: u128,
    r: String,
    other_process: u32,
    other_nanos: u128,
    other: String,
)
    requires
        call_ensures(create::default_request_id, (process, nanos), r),
        call_ensures(create::default_request_id, (other_process, other_nanos), other),
    ensures
        r@ == "temporal-nbd-create-"@ + text::decimal(process as nat) + "-"@ + text::decimal(
            nanos as nat,
        ),
        r@ == other@ <==> process == other_process && nanos == other_nanos,
{
    if r@ == other@ {
        reveal_strlit("-");
        let head = "temporal-nbd-create-"@;
        let p = text::decimal(process as nat);
        let q = text::decimal(other_process as nat);
        let a = text::decimal(nanos as nat);
        let b = text::decimal(other_nanos as nat);
        text::lemma_decimal_digits(process as nat);
        text::lemma_decimal_digits(other_process as nat);
        let n = head.len();
        assert(r@[(n + p.len()) as int] == '-');
        assert(other@[(n + q.len()) as int] == '-');
        if p.len() < q.len() {
            assert(other@[(n + p.len()) as int] == q[p.len() as int]);
        }
        if q.len() < p.len() {
            assert(r@[(n + q.len()) as int] == p[q.len() as int]);
        }
        assert(r@.subrange(n as int, (n + p.len()) as int) =~= p);
        assert(other@.subrange(n as int, (n + q.len()) as int) =~= q);
        assert(r@.skip((n + p.len() + 1) as int) =~= a);
        assert(other@.skip((n + q.len() + 1) as int) =~= b);
        text::lemma_decimal_injective(process as nat, other_process as nat);
        text::lemma_decimal_injective(nanos as nat, other_nanos as nat);
    }
}

} // verus!
