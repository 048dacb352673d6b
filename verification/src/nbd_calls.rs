//! What callers of the network block device protocol can count on, call by call.
//!
//! `call_ensures(f, args, r)` says that `f`, called with `args`, returned `r`.
use crate::bridge::{BridgeCommand, BridgeResponse};
use crate::bytes;
use crate::engine::VolumeGeometry;
use crate::nbd::{
    DoItEnd, HeaderInput, NbdStep, ReplyPurpose, RequestHeader, RequestKind, SetupCall, SetupPlan,
    SubmitTask,
};
use crate::nbd;
use crate::text;
use vstd::prelude::*;

verus! {

/// The number that four bytes spell, most significant first.
pub open spec fn word(s: Seq<u8>, at: int) -> int {
    s[at] * 0x100_0000 + s[at + 1] * 0x1_0000 + s[at + 2] * 0x100 + s[at + 3]
}

proof fn lemma_word(s: Seq<u8>, at: int)
    requires
        0 <= at,
        at + 4 <= s.len(),
    ensures
        bytes::be_value(s.subrange(at, at + 4)) == word(s, at),
{
    let t = s.subrange(at, at + 4);
    reveal_with_fuel(bytes::be_value, 5);
    assert(t.drop_last().drop_last().drop_last().drop_last() =~= Seq::<u8>::empty());
}

proof fn lemma_long_word(s: Seq<u8>, at: int)
    requires
        0 <= at,
        at + 8 <= s.len(),
    ensures
        bytes::be_value(s.subrange(at, at + 8)) == word(s, at) * 0x1_0000_0000 + word(s, at + 4),
{
    let t = s.subrange(at, at + 8);
    reveal_with_fuel(bytes::be_value, 9);
    assert(
    t.drop_last().drop_last().drop_last().drop_last().drop_last().drop_last().drop_last().drop_last()
        =~= Seq::<u8>::empty());
}

/// Whether bytes are whole blocks of the volume, at least one.
pub open spec fn whole_blocks(geometry: VolumeGeometry, offset_bytes: u64, length_bytes: u32) -> bool {
    exists|lba: int, count: int|
        #![trigger lba * geometry.block_size_bytes, count * geometry.block_size_bytes]
        {
            &&& 0 <= lba
            &&& 0 < count
            &&& lba + count <= geometry.total_blocks
            &&& lba * geometry.block_size_bytes == offset_bytes
            &&& count * geometry.block_size_bytes == length_bytes
        }
}

proof fn lemma_whole_blocks(geometry: VolumeGeometry, offset_bytes: u64, length_bytes: u32)
    requires
        geometry.wf(),
    ensures
        whole_blocks(geometry, offset_bytes, length_bytes) <==> nbd::valid_range(
            geometry,
            offset_bytes,
            length_bytes,
        ),
{
    let bs = geometry.block_size_bytes as int;
    let offset = offset_bytes as int;
    let length = length_bytes as int;
    let total = geometry.total_blocks as int;
    vstd::arithmetic::div_mod::lemma_fundamental_div_mod(offset, bs);
    vstd::arithmetic::div_mod::lemma_fundamental_div_mod(length, bs);
    let lba = offset / bs;
    let count = length / bs;
    assert(bs * lba == lba * bs && bs * count == count * bs && (lba + count) * bs == lba * bs + count
        * bs) by (nonlinear_arith);
    if nbd::valid_range(geometry, offset_bytes, length_bytes) {
        assert(count > 0) by (nonlinear_arith)
            requires
                length == bs * count,
                length > 0,
                bs > 0,
        ;
        assert(lba + count <= total) by (nonlinear_arith)
            requires
                (lba + count) * bs <= total * bs,
                bs > 0,
        ;
        vstd::arithmetic::div_mod::lemma_div_pos_is_pos(offset, bs);
        assert(lba * geometry.block_size_bytes == offset_bytes && count
            * geometry.block_size_bytes == length_bytes);
    }
    if whole_blocks(geometry, offset_bytes, length_bytes) {
        let (l, c) = choose|l: int, c: int|
            #![trigger l * geometry.block_size_bytes, c * geometry.block_size_bytes]
            {
                &&& 0 <= l
                &&& 0 < c
                &&& l + c <= geometry.total_blocks
                &&& l * geometry.block_size_bytes == offset_bytes
                &&& c * geometry.block_size_bytes == length_bytes
            };
        vstd::arithmetic::div_mod::lemma_mod_multiples_basic(l, bs);
        vstd::arithmetic::div_mod::lemma_mod_multiples_basic(c, bs);
        assert(c * bs > 0 && l * bs + c * bs <= total * bs) by (nonlinear_arith)
            requires
                c > 0,
                bs > 0,
                l + c <= total,
        ;
    }
}

/// A range of bytes is accepted where it is a run of whole blocks of the volume, at least one and of
/// whatever length, and refused with `EINVAL` everywhere else.
pub proof fn law_ranges_of_whole_blocks_are_accepted(
    geometry: VolumeGeometry,
    offset_bytes: u64,
    length_bytes: u32,
    r: Result<(), i32>,
)
    requires
        geometry.wf(),
        call_ensures(nbd::validate_range, (&geometry, offset_bytes, length_bytes), r),
    ensures
        r is Ok <==> whole_blocks(geometry, offset_bytes, length_bytes),
        r matches Err(e) ==> e == 22,
{
    lemma_whole_blocks(geometry, offset_bytes, length_bytes);
}

/// Whatever the geometry says, a range of bytes is accepted where whole blocks, at least one, lie
/// before it and in it, and it ends where the volume does or before.
pub proof fn law_ranges_are_measured_in_blocks(
    geometry: VolumeGeometry,
    offset_bytes: u64,
    length_bytes: u32,
    r: Result<(), i32>,
)
    requires
        call_ensures(nbd::validate_range, (&geometry, offset_bytes, length_bytes), r),
    ensures
        r is Ok <==> offset_bytes + length_bytes <= geometry.size_bytes && exists|
            lba: int,
            count: int,
        |
            #![trigger lba * geometry.block_size_bytes, count * geometry.block_size_bytes]
            0 < count && lba * geometry.block_size_bytes == offset_bytes && count
                * geometry.block_size_bytes == length_bytes && length_bytes > 0,
        r matches Err(e) ==> e == 22,
{
    let bs = geometry.block_size_bytes as int;
    let offset = offset_bytes as int;
    let length = length_bytes as int;
    if bs > 0 {
        vstd::arithmetic::div_mod::lemma_fundamental_div_mod(offset, bs);
        vstd::arithmetic::div_mod::lemma_fundamental_div_mod(length, bs);
        let lba = offset / bs;
        let count = length / bs;
        assert(bs * lba == lba * bs && bs * count == count * bs) by (nonlinear_arith);
        if r is Ok {
            assert(count > 0) by (nonlinear_arith)
                requires
                    length == bs * count,
                    length > 0,
                    bs > 0,
            ;
            assert(lba * geometry.block_size_bytes == offset_bytes && count
                * geometry.block_size_bytes == length_bytes);
        }
        assert forall|l: int, c: int|
            #![trigger l * geometry.block_size_bytes, c * geometry.block_size_bytes]
            0 < c && l * bs == offset && c * bs == length implies offset % bs == 0 && length % bs
            == 0 by {
            vstd::arithmetic::div_mod::lemma_mod_multiples_basic(l, bs);
            vstd::arithmetic::div_mod::lemma_mod_multiples_basic(c, bs);
        }
    }
}

/// Whether a header stands in these bytes: the magic number, the type, the handle, the offset and
/// the length.
pub open spec fn spells(raw: Seq<u8>, header: RequestHeader) -> bool {
    &&& word(raw, 0) == 0x2560_9513
    &&& header.cmd_type == word(raw, 4)
    &&& header.handle@ == raw.subrange(8, 16)
    &&& header.offset_bytes == word(raw, 16) * 0x1_0000_0000 + word(raw, 20)
    &&& header.length_bytes == word(raw, 24)
}

/// A header is read from its bytes where these start with the magic number of a request.
pub proof fn law_header_stands_in_its_bytes(raw: &[u8], r: Result<RequestHeader, String>)
    requires
        raw@.len() == 28,
        call_ensures(nbd::parse_request_header, (raw,), r),
    ensures
        r is Ok <==> word(raw@, 0) == 0x2560_9513,
        r matches Ok(header) ==> spells(raw@, header),
{
    lemma_word(raw@, 0);
    lemma_word(raw@, 4);
    lemma_long_word(raw@, 16);
    lemma_word(raw@, 24);
}

/// Whether a reply answers a request: the magic number of a reply, the error number, the handle of
/// the request, then the data.
pub open spec fn answers(reply: Seq<u8>, handle: Seq<u8>, errno: int, payload: Seq<u8>) -> bool {
    &&& reply.len() == 16 + payload.len()
    &&& word(reply, 0) == 0x6744_6698
    &&& word(reply, 4) == errno
    &&& reply.subrange(8, 16) == handle
    &&& reply.subrange(16, reply.len() as int) == payload
}

/// The error number as it is sent: one that is negative, which none should be, is sent as `EIO`.
pub open spec fn as_sent(errno: i32) -> int {
    if errno < 0 {
        5
    } else {
        errno as int
    }
}

proof fn lemma_answers(reply: Seq<u8>, handle: Seq<u8>, errno: i32, payload: Seq<u8>)
    requires
        nbd::is_reply(reply, handle, errno, payload),
    ensures
        answers(reply, handle, as_sent(errno), payload),
{
    lemma_word(reply, 0);
    lemma_word(reply, 4);
}

/// A reply is spelled as the kernel reads it.
pub proof fn law_reply_is_spelled_for_the_kernel(
    handle: [u8; 8],
    errno: i32,
    payload: &[u8],
    reply: Vec<u8>,
)
    requires
        call_ensures(nbd::encode_reply, (handle, errno, payload), reply),
    ensures
        answers(reply@, handle@, as_sent(errno), payload@),
{
    lemma_answers(reply@, handle@, errno, payload@);
}

/// Whether a step sends this answer.
pub open spec fn sends_answer(
    step: NbdStep,
    purpose: ReplyPurpose,
    handle: Seq<u8>,
    errno: int,
    payload: Seq<u8>,
) -> bool {
    step matches NbdStep::Reply(task) && task.purpose == purpose && answers(
        task.bytes@,
        handle,
        errno,
        payload,
    )
}

/// Whether a task hands the engine the request with this header.
pub open spec fn is_for(task: SubmitTask, header: RequestHeader) -> bool {
    &&& task.header.cmd_type == header.cmd_type
    &&& task.header.handle@ == header.handle@
    &&& task.header.offset_bytes == header.offset_bytes
    &&& task.header.length_bytes == header.length_bytes
}

/// What follows a request: a read or a write of whole blocks of the volume is passed on (a write once
/// its data are read), a flush and a disconnect are, and anything else is answered with `EINVAL`
/// under its own handle. The command is in the low sixteen bits of the type.
pub proof fn law_requests_are_passed_on_or_refused(
    geometry: VolumeGeometry,
    raw: Vec<u8>,
    header: RequestHeader,
    step: NbdStep,
)
    requires
        geometry.wf(),
        raw@.len() == 28,
        spells(raw@, header),
        call_ensures(nbd::on_header, (&geometry, HeaderInput::Raw(raw)), step),
    ensures
        ({
            let command = header.cmd_type as int % 0x1_0000;
            if command == 0 {
                if whole_blocks(geometry, header.offset_bytes, header.length_bytes) {
                    step matches NbdStep::Submit(task) && is_for(task, header) && task.kind is Read
                        && task.command == (BridgeCommand::Read {
                        offset_bytes: header.offset_bytes,
                        length_bytes: header.length_bytes,
                    })
                } else {
                    sends_answer(
                        step,
                        ReplyPurpose::ReadError,
                        header.handle@,
                        22,
                        Seq::empty(),
                    )
                }
            } else if command == 1 {
                step matches NbdStep::ReadPayload(h) && h.cmd_type == header.cmd_type && h.handle@
                    == header.handle@ && h.offset_bytes == header.offset_bytes && h.length_bytes
                    == header.length_bytes
            } else if command == 2 {
                step matches NbdStep::Submit(task) && is_for(task, header)
                    && task.kind is Disconnect && task.command is Disconnect
            } else if command == 3 {
                step matches NbdStep::Submit(task) && is_for(task, header) && task.kind is Flush
                    && task.command is Flush
            } else {
                sends_answer(step, ReplyPurpose::Unsupported, header.handle@, 22, Seq::empty())
            }
        }),
{
    lemma_word(raw@, 0);
    lemma_word(raw@, 4);
    lemma_long_word(raw@, 16);
    lemma_word(raw@, 24);
    lemma_whole_blocks(geometry, header.offset_bytes, header.length_bytes);
    if let NbdStep::Reply(task) = step {
        lemma_answers(task.bytes@, header.handle@, 22, Seq::empty());
    }
    if let NbdStep::Submit(task) = step {
        assert(task.header@.handle == header.handle@);
    }
}

/// A socket that is closed ends the loop without a failure; one that fails, or that brings no
/// request, ends it with one.
pub proof fn law_loop_ends_with_its_socket(
    geometry: VolumeGeometry,
    input: HeaderInput,
    step: NbdStep,
)
    requires
        input matches HeaderInput::Raw(raw) ==> raw@.len() == 28 && word(raw@, 0) != 0x2560_9513,
        call_ensures(nbd::on_header, (&geometry, input), step),
    ensures
        step matches NbdStep::Stop(error) && (error is None <==> input is EndOfStream),
        input matches HeaderInput::Failed(detail) ==> (step matches NbdStep::Stop(Some(e)) && e@
            == "failed to read nbd request header: "@ + detail@),
{
    if let HeaderInput::Raw(raw) = input {
        lemma_word(raw@, 0);
    }
}

/// Bytes that do not start with the magic number of a request are told by the number that they do
/// start with, in hexadecimal.
pub proof fn law_wrong_magic_is_told(
    geometry: VolumeGeometry,
    raw: Vec<u8>,
    same: &[u8],
    parsed: Result<RequestHeader, String>,
    step: NbdStep,
    magic: u32,
    digits: String,
)
    requires
        raw@.len() == 28,
        magic == word(raw@, 0),
        magic != 0x2560_9513,
        call_ensures(text::hex_u32, (magic, 8), digits),
        same@ == raw@,
        call_ensures(nbd::parse_request_header, (same,), parsed),
        call_ensures(nbd::on_header, (&geometry, HeaderInput::Raw(raw)), step),
    ensures
        parsed matches Err(e) && e@ == "invalid request magic: 0x"@ + digits@,
        step matches NbdStep::Stop(Some(e)) && e@ == "failed to read nbd request header: "@ + (
        "invalid request magic: 0x"@ + digits@),
{
    lemma_word(raw@, 0);
}

/// The data of a write are passed on as they were read, where they go to whole blocks of the volume;
/// else they are dropped, and the write is answered with `EINVAL`. Where they could not be read the
/// loop ends.
pub proof fn law_written_data_are_passed_on(
    geometry: VolumeGeometry,
    header: RequestHeader,
    payload: Result<Vec<u8>, String>,
    step: NbdStep,
)
    requires
        geometry.wf(),
        call_ensures(nbd::on_payload, (&geometry, header, payload), step),
    ensures
        match payload {
            Err(detail) => step matches NbdStep::Stop(Some(e)) && e@
                == "failed to read write payload: "@ + detail@,
            Ok(data) => if whole_blocks(geometry, header.offset_bytes, header.length_bytes) {
                step matches NbdStep::Submit(task) && {
                    &&& is_for(task, header)
                    &&& task.kind is Write
                    &&& task.command matches BridgeCommand::Write { offset_bytes, data: sent }
                    &&& offset_bytes == header.offset_bytes
                    &&& sent@ == data@
                }
            } else {
                sends_answer(step, ReplyPurpose::WriteError, header.handle@, 22, Seq::empty())
            },
        },
{
    lemma_whole_blocks(geometry, header.offset_bytes, header.length_bytes);
    if let NbdStep::Reply(task) = step {
        lemma_answers(task.bytes@, header.handle@, 22, Seq::empty());
    }
    if let NbdStep::Submit(task) = step {
        assert(task.header@.handle == header.handle@);
    }
}

/// The engine's answer is passed on under the handle of the request: a read with its data, a write
/// and a flush without. A read that succeeded with too few bytes, or too many, is an input/output
/// error. A disconnect is not answered, and ends the loop.
pub proof fn law_engine_answers_are_passed_on(
    header: RequestHeader,
    kind: RequestKind,
    response: BridgeResponse,
    step: NbdStep,
)
    requires
        call_ensures(nbd::on_response, (header, kind, response), step),
    ensures
        match kind {
            RequestKind::Disconnect => step matches NbdStep::Stop(error) && error is None,
            RequestKind::Read => if response.errno == 0 && response.data@.len()
                != header.length_bytes {
                sends_answer(step, ReplyPurpose::ReadSize, header.handle@, 5, Seq::empty())
            } else {
                sends_answer(
                    step,
                    ReplyPurpose::Read,
                    header.handle@,
                    as_sent(response.errno),
                    response.data@,
                )
            },
            RequestKind::Write => sends_answer(
                step,
                ReplyPurpose::Write,
                header.handle@,
                as_sent(response.errno),
                Seq::empty(),
            ),
            RequestKind::Flush => sends_answer(
                step,
                ReplyPurpose::Flush,
                header.handle@,
                as_sent(response.errno),
                Seq::empty(),
            ),
        },
{
    if let NbdStep::Reply(task) = step {
        if kind is Read {
            if response.errno == 0 && response.data@.len() != header.length_bytes {
                lemma_answers(task.bytes@, header.handle@, 5, Seq::empty());
            } else {
                lemma_answers(task.bytes@, header.handle@, response.errno, response.data@);
            }
        } else {
            lemma_answers(task.bytes@, header.handle@, response.errno, Seq::empty());
        }
    }
}

/// After a reply that was sent the next request is read; one that could not be sent ends the loop
/// with a failure.
pub proof fn law_loop_goes_on_after_a_reply(
    purpose: ReplyPurpose,
    sent: Result<(), String>,
    step: NbdStep,
)
    requires
        call_ensures(nbd::on_reply, (purpose, sent), step),
    ensures
        sent is Ok ==> step is ReadHeader,
        sent matches Err(detail) ==> (step matches NbdStep::Stop(Some(e)) && e@ == (match purpose {
            ReplyPurpose::ReadError => "failed to write read error reply: "@,
            ReplyPurpose::ReadSize => "failed to write read-size error reply: "@,
            ReplyPurpose::Read => "failed to write read reply: "@,
            ReplyPurpose::WriteError => "failed to write write error reply: "@,
            ReplyPurpose::Write => "failed to write write reply: "@,
            ReplyPurpose::Flush => "failed to write flush reply: "@,
            ReplyPurpose::Unsupported => "failed to write unsupported-cmd reply: "@,
        }) + detail@),
{
}

/// Whether a plan makes these calls, of each the request code and its argument.
pub open spec fn makes_calls(plan: SetupPlan, calls: Seq<(u32, int)>) -> bool {
    &&& plan.calls@.len() == calls.len()
    &&& forall|i: int|
        0 <= i < calls.len() ==> (#[trigger] plan.calls@[i]).request == calls[i].0
            && plan.calls@[i].arg == calls[i].1
}

/// A device is told its block size, its number of blocks, a timeout where one is wanted, that it
/// takes flushes, and at last its socket, where all of these can be told.
pub proof fn law_device_is_told_its_volume(
    geometry: VolumeGeometry,
    timeout_secs: u64,
    sock_fd: i32,
    plan: SetupPlan,
)
    requires
        call_ensures(nbd::configure_device, (&geometry, timeout_secs, sock_fd), plan),
    ensures
        plan.error is None <==> geometry.total_blocks <= usize::MAX && timeout_secs <= usize::MAX
            && sock_fd >= 0,
        plan.error is None && timeout_secs > 0 ==> makes_calls(
            plan,
            seq![
                (0xAB01u32, geometry.block_size_bytes as int),
                (0xAB07u32, geometry.total_blocks as int),
                (0xAB09u32, timeout_secs as int),
                (0xAB0Au32, 5int),
                (0xAB00u32, sock_fd as int),
            ],
        ),
        plan.error is None && timeout_secs == 0 ==> makes_calls(
            plan,
            seq![
                (0xAB01u32, geometry.block_size_bytes as int),
                (0xAB07u32, geometry.total_blocks as int),
                (0xAB0Au32, 5int),
                (0xAB00u32, sock_fd as int),
            ],
        ),
{
    let view = nbd::calls_view(plan.calls@);
    let sizing = nbd::sizing_calls(geometry, timeout_secs);
    assert(view.len() == plan.calls@.len());
    assert forall|i: int| 0 <= i < plan.calls@.len() implies view[i].request == (
    #[trigger] plan.calls@[i]).request && view[i].arg == plan.calls@[i].arg by {}
    if plan.error is None {
        assert(view[0] == sizing[0] && view[1] == sizing[1] && view[2] == sizing[2]);
        if timeout_secs > 0 {
            assert(sizing.len() == 4);
            assert(view[3] == sizing[3]);
        } else {
            assert(sizing.len() == 3);
        }
    }
}

/// A device is taken down by three calls: disconnect, clear the queue, clear the socket.
pub proof fn law_device_is_taken_down(calls: Vec<u32>)
    requires
        call_ensures(nbd::teardown_calls, (), calls),
    ensures
        calls@ == seq![0xAB08u32, 0xAB05u32, 0xAB04u32],
{
}

/// The call that runs the device ended well where it says so, or where its error number is one of
/// those that a cleared socket gives.
pub proof fn law_cleared_socket_is_a_regular_end(
    rc: i32,
    errno: i32,
    not_connected: i32,
    detail: &str,
    r: Result<(), String>,
)
    requires
        call_ensures(nbd::do_it_result_given, (rc, errno, not_connected, detail), r),
    ensures
        r is Ok <==> rc >= 0 || errno == 22 || errno == 32 || errno == not_connected,
        r matches Err(e) ==> e@ == "NBD_DO_IT failed: "@ + detail@,
{
}

/// On this system the same holds, with one of the numbers that Linux gives a socket that is not
/// connected; no other number is taken for a regular end.
pub proof fn law_cleared_socket_is_a_regular_end_here(
    rc: i32,
    errno: i32,
    detail: &str,
    r: Result<(), String>,
)
    requires
        call_ensures(nbd::do_it_result, (rc, errno, detail), r),
    ensures
        rc >= 0 || errno == 22 || errno == 32 ==> r is Ok,
        r is Ok ==> rc >= 0 || errno == 22 || errno == 32 || errno == 107 || errno == 134 || errno
            == 57,
        r matches Err(e) ==> e@ == "NBD_DO_IT failed: "@ + detail@,
{
}

/// Serving a device ends well where the call that runs it did and the loop did. Where both failed,
/// the failure of the loop is told last, as the cause.
pub proof fn law_serving_reports_every_failure(
    do_it: DoItEnd,
    loop_error: Option<String>,
    r: Result<(), Vec<String>>,
)
    requires
        call_ensures(nbd::serve_outcome, (do_it, loop_error), r),
    ensures
        r is Ok <==> (loop_error is None && (do_it matches DoItEnd::Finished(Ok(())))),
        r matches Err(messages) ==> match do_it {
            DoItEnd::Panicked => messages@.len() == 1 && messages@[0]@
                == "NBD_DO_IT thread panicked"@,
            DoItEnd::Finished(Ok(())) => messages@.len() == 1 && messages@[0]@ == loop_error->0@,
            DoItEnd::Finished(Err(e)) => if loop_error is Some {
                &&& messages@.len() == 2
                &&& messages@[0]@ == "NBD_DO_IT also failed: "@ + e@
                &&& messages@[1]@ == loop_error->0@
            } else {
                messages@.len() == 1 && messages@[0]@ == e@
            },
        },
{
    if let Err(messages) = r {
        let view = nbd::messages_view(messages@);
        assert(view.len() == messages@.len());
        assert forall|i: int| 0 <= i < messages@.len() implies view[i] == (
        #[trigger] messages@[i])@ by {}
    }
}

/// A device can be served on Linux, where the device is there and the kernel module is loaded.
pub proof fn law_host_must_be_ready(
    on_linux: bool,
    device_exists: bool,
    module_loaded: bool,
    device_path: &str,
    r: Result<(), String>,
)
    requires
        call_ensures(
            nbd::preflight,
            (on_linux, device_exists, module_loaded, device_path),
            r,
        ),
    ensures
        r is Ok <==> on_linux && device_exists && module_loaded,
        r matches Err(e) ==> e@ == if !on_linux {
            "attach mode is only supported on Linux hosts"@
        } else if !device_exists {
            "NBD device "@ + device_path@ + " does not exist"@
        } else {
            "nbd kernel module is not loaded (missing /sys/module/nbd). Run: sudo modprobe nbd max_part=0"@
        },
{
}

/// What cannot be told to a device is named, the number of blocks first, then the timeout, then the
/// socket; without the socket, the device is told all the rest.
pub proof fn law_untold_settings_are_named(
    geometry: VolumeGeometry,
    timeout_secs: u64,
    sock_fd: i32,
    plan: SetupPlan,
)
    requires
        call_ensures(nbd::configure_device, (&geometry, timeout_secs, sock_fd), plan),
    ensures
        geometry.total_blocks > usize::MAX ==> plan.error is Some && plan.error->0@
            == "total blocks does not fit ioctl arg"@ && plan.calls@.len() == 0,
        geometry.total_blocks <= usize::MAX && timeout_secs > usize::MAX ==> plan.error is Some
            && plan.error->0@ == "timeout does not fit ioctl arg"@ && plan.calls@.len() == 0,
        geometry.total_blocks <= usize::MAX && timeout_secs <= usize::MAX && sock_fd < 0
            ==> plan.error is Some && plan.error->0@ == "socket fd does not fit ioctl arg"@
            && plan.calls@.len() == if timeout_secs > 0 {
            4int
        } else {
            3
        },
        forall|i: int| 0 <= i < plan.calls@.len() ==> names_call(#[trigger] plan.calls@[i]),
{
    let view = nbd::calls_view(plan.calls@);
    let sizing = nbd::sizing_calls(geometry, timeout_secs);
    assert(view.len() == plan.calls@.len());
    assert forall|i: int| 0 <= i < plan.calls@.len() implies names_call(
        #[trigger] plan.calls@[i],
    ) by {
        assert(view[i] == plan.calls@[i]@);
        if i < sizing.len() {
            assert(view[i] == sizing[i]);
        }
    }
}

/// Whether what is said where a call fails names that call.
pub open spec fn names_call(call: SetupCall) -> bool {
    &&& call.request == 0xAB01 ==> call.failure@ == "NBD_SET_BLKSIZE failed"@
    &&& call.request == 0xAB07 ==> call.failure@ == "NBD_SET_SIZE_BLOCKS failed"@
    &&& call.request == 0xAB09 ==> call.failure@ == "NBD_SET_TIMEOUT failed"@
    &&& call.request == 0xAB0A ==> call.failure@ == "NBD_SET_FLAGS failed"@
    &&& call.request == 0xAB00 ==> call.failure@ == "NBD_SET_SOCK failed"@
}

} // verus!
