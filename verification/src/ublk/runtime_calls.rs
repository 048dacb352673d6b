//! What callers can count on when devices are run, listed and counted.
//!
//! `call_ensures(f, args, r)` says that `f`, called with `args`, returned `r`; of counters that are
//! passed to be changed, `old(..)` are the counters before the call and `final(..)` those after it.
use crate::text;
use crate::ublk::device::DeviceState;
use crate::ublk::device;
use crate::ublk::index::VolumeIndex;
use crate::ublk::manager_calls;
use crate::ublk::metrics::UblkMetrics;
use crate::ublk::runtime::{
    ClaimOutcome, ClaimStep, ClaimTask, DeviceStartConfig, RemovalOutcome, RuntimeError, SilentEnd,
};
use crate::ublk::runtime;
use vstd::prelude::*;

verus! {

/// The queues of a device are accepted where there is one at least, and each holds one request at
/// least and 4096 at most.
pub proof fn law_queues_are_checked(queues: u16, depth: u16, r: Result<(), RuntimeError>)
    requires
        call_ensures(runtime::validate_queue_model, (queues, depth), r),
    ensures
        r is Ok <==> queues >= 1 && 1 <= depth <= 4096,
        r matches Err(e) ==> {
            &&& e.kind is InvalidArgument
            &&& e.message@ == if queues == 0 {
                "ublk_queues must be greater than zero"@
            } else if depth == 0 {
                "ublk_queue_depth must be greater than zero"@
            } else {
                "ublk_queue_depth must be <= "@ + text::decimal(4096)
            }
        },
{
}

/// A device can be started where its queues are accepted and it has blocks of some size.
pub proof fn law_device_is_checked_before_it_starts(
    config: DeviceStartConfig,
    r: Result<(), RuntimeError>,
    queues: Result<(), RuntimeError>,
)
    requires
        call_ensures(runtime::check_start, (&config,), r),
        call_ensures(runtime::validate_queue_model, (config.queues, config.queue_depth), queues),
    ensures
        r is Ok <==> queues is Ok && config.size_bytes > 0 && config.block_size_bytes > 0,
        r matches Err(e) ==> e.kind is InvalidArgument && e.message@ == match queues {
            Err(q) => q.message@,
            Ok(()) => if config.size_bytes == 0 {
                "volume size must be greater than zero"@
            } else {
                "block size must be greater than zero"@
            },
        },
{
}

/// A host can run devices where it runs Linux, has the control device, and the module is loaded. The
/// first of these that fails is told; only another system is the caller's fault.
pub proof fn law_host_is_checked(
    on_linux: bool,
    control_exists: bool,
    module_loaded: bool,
    control: &str,
    r: Result<(), RuntimeError>,
)
    requires
        call_ensures(
            runtime::preflight,
            (on_linux, control_exists, module_loaded, control),
            r,
        ),
    ensures
        r is Ok <==> on_linux && control_exists && module_loaded,
        r matches Err(e) ==> if !on_linux {
            e.kind is InvalidArgument && e.message@
                == "ublk runtime is only supported on Linux hosts"@
        } else if !control_exists {
            e.kind is Unavailable && e.message@ == "UBLK control device "@ + control@
                + " does not exist"@
        } else {
            e.kind is Unavailable && e.message@
                == "ublk kernel module is not loaded (missing /sys/module/ublk_drv)"@
        },
{
}

/// A host whose control device cannot be opened cannot run devices.
pub proof fn law_control_device_must_open(opened: bool, control: &str, r: Result<(), RuntimeError>)
    requires
        call_ensures(runtime::preflight_opened, (opened, control), r),
    ensures
        r is Ok <==> opened,
        r matches Err(e) ==> e.kind is Unavailable && e.message@ == "failed to open "@ + control@,
{
}

/// Devices with different numbers have different paths.
pub proof fn law_device_paths_differ(a: u32, b: u32, path: String, other: String)
    requires
        call_ensures(runtime::device_path, (a,), path),
        call_ensures(runtime::device_path, (b,), other),
    ensures
        path@ == "/dev/ublkb"@ + text::decimal(a as nat),
        path@ == other@ <==> a == b,
{
    if path@ == other@ {
        let n = "/dev/ublkb"@.len() as int;
        assert(path@.skip(n) =~= text::decimal(a as nat));
        assert(other@.skip(n) =~= text::decimal(b as nat));
        text::lemma_decimal_injective(a as nat, b as nat);
    }
}

/// Devices with different numbers are claimed in different records.
pub proof fn law_claim_records_differ(a: u32, b: u32, path: String, other: String)
    requires
        call_ensures(runtime::device_lock_path, (a,), path),
        call_ensures(runtime::device_lock_path, (b,), other),
    ensures
        path@ == "/tmp/temporal-ublk/devices"@ + "/ublkb"@ + text::decimal(a as nat) + ".lock"@,
        path@ == other@ <==> a == b,
{
    if path@ == other@ {
        let n = ("/tmp/temporal-ublk/devices"@ + "/ublkb"@).len() as int;
        let m = ".lock"@.len() as int;
        assert(path@.subrange(n, path@.len() - m) =~= text::decimal(a as nat));
        assert(other@.subrange(n, other@.len() - m) =~= text::decimal(b as nat));
        text::lemma_decimal_injective(a as nat, b as nat);
    }
}

/// The record of a claim names the volume.
pub proof fn law_claim_names_the_volume(volume: &str, r: String)
    requires
        call_ensures(runtime::claim_record, (volume,), r),
    ensures
        r@ == "volume_id="@ + volume@ + "\n"@,
{
}

/// A task that never said that it was ready has failed, for its own reason where it gave one.
pub proof fn law_silent_task_has_failed(end: SilentEnd, r: RuntimeError)
    requires
        call_ensures(runtime::silent_end_error, (end,), r),
    ensures
        end matches SilentEnd::Returned(Err(e)) ==> r.kind == e.kind && r.message@ == e.message@,
        end matches SilentEnd::Returned(Ok(())) ==> r.kind is Internal && r.message@
            == "ublk runtime exited before signaling readiness"@,
        end matches SilentEnd::JoinFailed(detail) ==> r.kind is Internal && r.message@
            == "ublk runtime join error: "@ + detail@,
{
}

/// A number is claimed where its record could be made and filled; else it is told what stood in the
/// way.
pub proof fn law_claim_is_told(
    id: u32,
    outcome: ClaimOutcome,
    r: Result<(), RuntimeError>,
    path: String,
)
    requires
        call_ensures(runtime::claim_specific_device, (id, outcome), r),
        call_ensures(runtime::device_lock_path, (id,), path),
    ensures
        r is Ok <==> outcome is Claimed,
        outcome is Taken ==> (r matches Err(e) && e.kind is Unavailable && e.message@
            == "device_id '"@ + text::decimal(id as nat) + "' is already in use"@),
        outcome matches ClaimOutcome::Failed(detail) ==> (r matches Err(e) && e.kind is Internal
            && e.message@ == "failed to claim device_id '"@ + text::decimal(id as nat) + "' via "@
            + path@ + ": "@ + detail@),
        outcome matches ClaimOutcome::WriteFailed(detail) ==> (r matches Err(e)
            && e.kind is Internal && e.message@ == "failed to write "@ + path@ + ": "@ + detail@),
{
}

/// The number that is asked for is tried, where there can be one like it, and no other; where none
/// is asked for, the numbers are tried from zero on.
pub proof fn law_claim_starts_with_the_number_asked_for(
    requested: Option<u32>,
    dir_ready: Result<(), String>,
    step: ClaimStep,
)
    requires
        call_ensures(runtime::claim_device_id, (requested, dir_ready), step),
    ensures
        dir_ready matches Err(detail) ==> (step matches ClaimStep::Done(Err(e))
            && e.kind is Internal && e.message@ == "failed to create ublk runtime state dir "@
            + "/tmp/temporal-ublk/devices"@ + ": "@ + detail@),
        dir_ready is Ok ==> match requested {
            None => step matches ClaimStep::Claim(task) && task.device_id == 0 && task.any,
            Some(id) => if id <= 65_535 {
                step matches ClaimStep::Claim(task) && task.device_id == id && !task.any
            } else {
                step matches ClaimStep::Done(Err(e)) && e.kind is InvalidArgument && e.message@
                    == "requested device_id '"@ + text::decimal(id as nat)
                    + "' is out of supported range (max "@ + text::decimal(65_535) + ")"@
            },
        },
{
}

/// A number that could be claimed ends the claim. Where any would do, the next one follows a taken
/// one, until there is none; elsewhere the claim has failed as its one try has.
pub proof fn law_claim_goes_on_after_a_taken_number(
    task: ClaimTask,
    outcome: ClaimOutcome,
    step: ClaimStep,
    tried: Result<(), RuntimeError>,
)
    requires
        call_ensures(runtime::claim_tried, (task, outcome), step),
        call_ensures(runtime::claim_specific_device, (task.device_id, outcome), tried),
    ensures
        match outcome {
            ClaimOutcome::Claimed => step matches ClaimStep::Done(Ok(id)) && id == task.device_id,
            _ => if outcome is Taken && task.any && task.device_id < 65_535 {
                step matches ClaimStep::Claim(next) && next.device_id == task.device_id + 1
                    && next.any
            } else if outcome is Taken && task.any {
                step matches ClaimStep::Done(Err(e)) && e.kind is Unavailable && e.message@
                    == "no free ublk device id available in local runtime allocator"@
            } else {
                step matches ClaimStep::Done(Err(e)) && tried matches Err(own) && e.kind
                    == own.kind && e.message@ == own.message@
            },
        },
{
}

/// A number is given back, and a device taken away by force, where the record is gone afterwards,
/// whether it was there or not.
pub proof fn law_missing_record_counts_as_removed(
    id: u32,
    outcome: RemovalOutcome,
    cleaned: Result<(), RuntimeError>,
    detached: Result<(), RuntimeError>,
    path: String,
)
    requires
        call_ensures(runtime::cleanup_device_claim, (id, outcome), cleaned),
        call_ensures(runtime::force_detach_device, (id, outcome), detached),
        call_ensures(runtime::device_lock_path, (id,), path),
    ensures
        cleaned is Ok <==> outcome is Removed || outcome is Missing,
        detached is Ok <==> outcome is Removed || outcome is Missing,
        outcome matches RemovalOutcome::Failed(detail) ==> {
            &&& cleaned matches Err(e) && e.kind is Internal && e.message@
                == "failed to release device_id '"@ + text::decimal(id as nat) + "' at "@ + path@
                + ": "@ + detail@
            &&& detached matches Err(e) && e.kind is Internal && e.message@
                == "failed to remove runtime lock "@ + path@ + ": "@ + detail@
        },
{
}

/// Failures are of the class that they are made for, and say what they were given.
pub proof fn law_failures_are_classed(
    message: &str,
    invalid: RuntimeError,
    unavailable: RuntimeError,
    internal: RuntimeError,
    words: String,
)
    requires
        call_ensures(RuntimeError::invalid_argument, (message,), invalid),
        call_ensures(RuntimeError::unavailable, (message,), unavailable),
        call_ensures(RuntimeError::internal, (message,), internal),
        call_ensures(RuntimeError::describe, (&internal,), words),
    ensures
        invalid.kind is InvalidArgument && invalid.message@ == message@,
        unavailable.kind is Unavailable && unavailable.message@ == message@,
        internal.kind is Internal && internal.message@ == message@,
        words@ == message@,
{
}

/// A device is past all use exactly where it is detached or has failed, and is degraded where it has
/// failed or had to be detached by force.
pub proof fn law_states_are_told_apart(
    state: DeviceState,
    terminal: bool,
    degraded: bool,
    name: String,
)
    requires
        call_ensures(DeviceState::is_terminal, (&state,), terminal),
        call_ensures(DeviceState::is_degraded, (&state,), degraded),
        call_ensures(device::state_name, (state,), name),
    ensures
        terminal <==> !manager_calls::in_use(state),
        degraded <==> state is Failed || state is ForceDetached,
        name@ == manager_calls::called(state),
{
}

/// Whether a counter went up by one, or round.
pub open spec fn went_up(before: u64, after: u64) -> bool {
    after == before + 1 || (before == u64::MAX && after == 0)
}

/// Whether all counters but those of additions are the same.
pub open spec fn same_but_for_additions(a: UblkMetrics, b: UblkMetrics) -> bool {
    &&& a.remove_requests_total == b.remove_requests_total
    &&& a.remove_success_total == b.remove_success_total
    &&& a.remove_failures_total == b.remove_failures_total
    &&& a.drain_timeouts_total == b.drain_timeouts_total
    &&& a.force_detach_total == b.force_detach_total
}

/// Whether all counters but those of removals are the same.
pub open spec fn same_but_for_removals(a: UblkMetrics, b: UblkMetrics) -> bool {
    &&& a.add_requests_total == b.add_requests_total
    &&& a.add_success_total == b.add_success_total
    &&& a.add_failures_total == b.add_failures_total
    &&& a.drain_timeouts_total == b.drain_timeouts_total
    &&& a.force_detach_total == b.force_detach_total
}

/// Every addition is counted, as a success or as a failure, and a success is one device more.
pub proof fn law_additions_are_counted(m: &mut UblkMetrics, ok: bool)
    requires
        call_ensures(UblkMetrics::record_add_result, (m, ok), ()),
    ensures
        went_up(old(m).add_requests_total, final(m).add_requests_total),
        ok ==> went_up(old(m).add_success_total, final(m).add_success_total),
        ok ==> final(m).add_failures_total == old(m).add_failures_total,
        !ok ==> went_up(old(m).add_failures_total, final(m).add_failures_total),
        !ok ==> final(m).add_success_total == old(m).add_success_total,
        ok && old(m).active_devices < i64::MAX ==> final(m).active_devices == old(
            m,
        ).active_devices + 1,
        !ok ==> final(m).active_devices == old(m).active_devices,
        same_but_for_additions(*final(m), *old(m)),
{
}

/// Every removal is counted, as a success or as a failure, and a success by which the device went
/// away is one device fewer.
pub proof fn law_removals_are_counted(m: &mut UblkMetrics, ok: bool, detached: bool)
    requires
        call_ensures(UblkMetrics::record_remove_result, (m, ok, detached), ()),
    ensures
        went_up(old(m).remove_requests_total, final(m).remove_requests_total),
        ok ==> went_up(old(m).remove_success_total, final(m).remove_success_total),
        ok ==> final(m).remove_failures_total == old(m).remove_failures_total,
        !ok ==> went_up(old(m).remove_failures_total, final(m).remove_failures_total),
        !ok ==> final(m).remove_success_total == old(m).remove_success_total,
        ok && detached && old(m).active_devices > i64::MIN ==> final(m).active_devices == old(
            m,
        ).active_devices - 1,
        !(ok && detached) ==> final(m).active_devices == old(m).active_devices,
        same_but_for_removals(*final(m), *old(m)),
{
}

/// Drains that took too long, and detachments by force, are counted each on their own.
pub proof fn law_drains_and_detachments_are_counted(a: &mut UblkMetrics, b: &mut UblkMetrics)
    requires
        call_ensures(UblkMetrics::record_drain_timeout, (a,), ()),
        call_ensures(UblkMetrics::record_force_detach, (b,), ()),
    ensures
        went_up(old(a).drain_timeouts_total, final(a).drain_timeouts_total),
        final(a).force_detach_total == old(a).force_detach_total,
        went_up(old(b).force_detach_total, final(b).force_detach_total),
        final(b).drain_timeouts_total == old(b).drain_timeouts_total,
        final(a).active_devices == old(a).active_devices,
        final(b).active_devices == old(b).active_devices,
        final(a).add_requests_total == old(a).add_requests_total,
        final(a).add_success_total == old(a).add_success_total,
        final(a).add_failures_total == old(a).add_failures_total,
        final(a).remove_requests_total == old(a).remove_requests_total,
        final(a).remove_success_total == old(a).remove_success_total,
        final(a).remove_failures_total == old(a).remove_failures_total,
        final(b).add_requests_total == old(b).add_requests_total,
        final(b).add_success_total == old(b).add_success_total,
        final(b).add_failures_total == old(b).add_failures_total,
        final(b).remove_requests_total == old(b).remove_requests_total,
        final(b).remove_success_total == old(b).remove_success_total,
        final(b).remove_failures_total == old(b).remove_failures_total,
{
}

/// Counters start at zero.
pub proof fn law_counters_start_at_zero(m: UblkMetrics)
    requires
        call_ensures(UblkMetrics::default, (), m),
    ensures
        m.add_requests_total == 0,
        m.add_success_total == 0,
        m.add_failures_total == 0,
        m.remove_requests_total == 0,
        m.remove_success_total == 0,
        m.remove_failures_total == 0,
        m.active_devices == 0,
        m.drain_timeouts_total == 0,
        m.force_detach_total == 0,
{
}

/// How one counter is shown: what it is, and its value.
pub open spec fn shown(name: Seq<char>, kind: Seq<char>, value: int) -> Seq<char> {
    "# TYPE "@ + name + " "@ + kind + "\n"@ + name + " "@ + text::decimal(value as nat) + "\n"@
}

/// Every counter is shown under its name with its value, and never fewer devices than none.
pub proof fn law_counters_are_shown_under_their_names(m: UblkMetrics, r: String)
    requires
        call_ensures(UblkMetrics::render_prometheus, (&m,), r),
    ensures
        r@ == shown("temporal_ublk_add_requests_total"@, "counter"@, m.add_requests_total as int)
            + shown("temporal_ublk_add_success_total"@, "counter"@, m.add_success_total as int)
            + shown("temporal_ublk_add_failures_total"@, "counter"@, m.add_failures_total as int)
            + shown(
            "temporal_ublk_remove_requests_total"@,
            "counter"@,
            m.remove_requests_total as int,
        ) + shown(
            "temporal_ublk_remove_success_total"@,
            "counter"@,
            m.remove_success_total as int,
        ) + shown(
            "temporal_ublk_remove_failures_total"@,
            "counter"@,
            m.remove_failures_total as int,
        ) + shown(
            "temporal_ublk_active_devices"@,
            "gauge"@,
            if m.active_devices > 0 {
                m.active_devices as int
            } else {
                0
            },
        ) + shown(
            "temporal_ublk_drain_timeouts_total"@,
            "counter"@,
            m.drain_timeouts_total as int,
        ) + shown("temporal_ublk_force_detach_total"@, "counter"@, m.force_detach_total as int),
{
}

/// A volume that is put into an index is found there with its device, and others as before; one that
/// is taken out is not found any more.
pub proof fn law_index_finds_what_was_put_in(
    put: &mut VolumeIndex,
    volume: String,
    device: u32,
    other: String,
    before: Option<u32>,
    found: Option<u32>,
)
    requires
        old(put).wf(),
        call_ensures(VolumeIndex::insert, (put, volume, device), ()),
        call_ensures(VolumeIndex::get, (&*old(put), &other), before),
        call_ensures(VolumeIndex::get, (&*final(put), &other), found),
    ensures
        final(put).wf(),
        other@ == volume@ ==> found == Some(device),
        other@ != volume@ ==> found == before,
{
}

/// A volume that is taken out of an index is not found there any more, and others are as before.
pub proof fn law_index_forgets_what_was_taken_out(
    cut: &mut VolumeIndex,
    volume: String,
    other: String,
    before: Option<u32>,
    found: Option<u32>,
)
    requires
        old(cut).wf(),
        call_ensures(VolumeIndex::remove, (cut, &volume), ()),
        call_ensures(VolumeIndex::get, (&*old(cut), &other), before),
        call_ensures(VolumeIndex::get, (&*final(cut), &other), found),
    ensures
        final(cut).wf(),
        other@ == volume@ ==> found is None,
        other@ != volume@ ==> found == before,
{
}

/// Nothing is found in a new index.
pub proof fn law_new_index_is_empty(index: VolumeIndex, volume: String, found: Option<u32>)
    requires
        call_ensures(VolumeIndex::new, (), index),
        call_ensures(VolumeIndex::get, (&index, &volume), found),
    ensures
        index.wf(),
        found is None,
{
}

} // verus!
