//! Serving the kernel's network block device protocol over its socket.
//!
//! The loop that owns the socket never decides anything: after each piece of input or output it
//! asks one of the functions here what to do next, as an `NbdStep`.
use crate::bridge::{BridgeCommand, BridgeCommandView, BridgeResponse};
use crate::bridge;
use crate::bytes;
use crate::engine::VolumeGeometry;
use crate::engine;
use crate::errno;
use crate::text;
use vstd::prelude::*;

verus! {

/// The number that starts every request.
pub const NBD_REQUEST_MAGIC: u32 = 0x2560_9513;

/// The number that starts every reply.
pub const NBD_REPLY_MAGIC: u32 = 0x6744_6698;

pub const NBD_CMD_READ: u32 = 0;

pub const NBD_CMD_WRITE: u32 = 1;

pub const NBD_CMD_DISC: u32 = 2;

pub const NBD_CMD_FLUSH: u32 = 3;

pub const NBD_SET_SOCK: u32 = 0xAB00;

pub const NBD_SET_BLKSIZE: u32 = 0xAB01;

pub const NBD_DO_IT: u32 = 0xAB03;

pub const NBD_CLEAR_SOCK: u32 = 0xAB04;

pub const NBD_CLEAR_QUE: u32 = 0xAB05;

pub const NBD_SET_SIZE_BLOCKS: u32 = 0xAB07;

pub const NBD_DISCONNECT: u32 = 0xAB08;

pub const NBD_SET_TIMEOUT: u32 = 0xAB09;

pub const NBD_SET_FLAGS: u32 = 0xAB0A;

/// The device understands flags (bit 0) and takes flush requests (bit 2).
pub const NBD_FLAGS: usize = 5;

/// The length of a request header.
pub const REQUEST_HEADER_BYTES: usize = 28;

/// Where the device is, and how long the kernel waits for a reply (zero: forever).
#[derive(Debug)]
pub struct NbdConfig {
    pub device_path: String,
    pub timeout_secs: u64,
}

impl Clone for NbdConfig {
    fn clone(&self) -> (r: Self)
        ensures
            r == *self,
    {
        NbdConfig { device_path: self.device_path.clone(), timeout_secs: self.timeout_secs }
    }
}

/// The header of a request.
#[derive(Clone, Copy, Debug)]
pub struct RequestHeader {
    pub cmd_type: u32,
    pub handle: [u8; 8],
    pub offset_bytes: u64,
    pub length_bytes: u32,
}

/// What a `RequestHeader` holds.
#[verifier::ext_equal]
pub struct RequestHeaderView {
    pub cmd_type: u32,
    pub handle: Seq<u8>,
    pub offset_bytes: u64,
    pub length_bytes: u32,
}

impl View for RequestHeader {
    type V = RequestHeaderView;

    open spec fn view(&self) -> RequestHeaderView {
        RequestHeaderView {
            cmd_type: self.cmd_type,
            handle: self.handle@,
            offset_bytes: self.offset_bytes,
            length_bytes: self.length_bytes,
        }
    }
}

impl RequestHeaderView {
    /// The command: the low sixteen bits of the type, without its flags.
    pub open spec fn command(self) -> int {
        self.cmd_type as int % 0x1_0000
    }
}

/// The number that a request header starts with.
pub open spec fn header_magic(raw: Seq<u8>) -> nat {
    bytes::be_value(raw.subrange(0, 4))
}

/// The header that 28 bytes spell after their magic number.
pub open spec fn header_fields(raw: Seq<u8>) -> RequestHeaderView {
    RequestHeaderView {
        cmd_type: bytes::be_value(raw.subrange(4, 8)) as u32,
        handle: raw.subrange(8, 16),
        offset_bytes: bytes::be_value(raw.subrange(16, 24)) as u64,
        length_bytes: bytes::be_value(raw.subrange(24, 28)) as u32,
    }
}

/// What is said of a request whose magic number is wrong.
pub open spec fn bad_magic(magic: nat) -> Seq<char> {
    "invalid request magic: 0x"@ + text::hex(magic, 8)
}

/// Reads a request header.
pub fn parse_request_header(raw: &[u8]) -> (r: Result<RequestHeader, String>)
    requires
        raw@.len() == REQUEST_HEADER_BYTES,
    ensures
        match r {
            Ok(header) => header_magic(raw@) == NBD_REQUEST_MAGIC && header@ == header_fields(raw@),
            Err(message) => header_magic(raw@) != NBD_REQUEST_MAGIC && message@ == bad_magic(
                header_magic(raw@),
            ),
        },
{
    let magic: u32 = bytes::read_u32(raw, 0);
    if magic != NBD_REQUEST_MAGIC {
        return Err(text::cat2("invalid request magic: 0x", text::hex_u32(magic, 8).as_str()));
    }
    let cmd_type: u32 = bytes::read_u32(raw, 4);
    let handle: [u8; 8] = [
        raw[8],
        raw[9],
        raw[10],
        raw[11],
        raw[12],
        raw[13],
        raw[14],
        raw[15],
    ];
    let offset_bytes: u64 = bytes::read_u64(raw, 16);
    let length_bytes: u32 = bytes::read_u32(raw, 24);
    assert(handle@ =~= raw@.subrange(8, 16));
    Ok(RequestHeader { cmd_type, handle, offset_bytes, length_bytes })
}

/// Whether `n` is a multiple of `d`; of zero, zero alone is.
pub open spec fn multiple_of(n: int, d: int) -> bool {
    if d == 0 {
        n == 0
    } else {
        n % d == 0
    }
}

/// Whether a range of bytes is part of the volume and covers whole blocks, at least one.
pub open spec fn valid_range(geometry: VolumeGeometry, offset_bytes: u64, length_bytes: u32) -> bool {
    &&& length_bytes > 0
    &&& multiple_of(offset_bytes as int, geometry.block_size_bytes as int)
    &&& multiple_of(length_bytes as int, geometry.block_size_bytes as int)
    &&& offset_bytes + length_bytes <= u64::MAX
    &&& offset_bytes + length_bytes <= geometry.size_bytes
}

/// Checks that a range of bytes is part of the volume and covers whole blocks.
pub fn validate_range(geometry: &VolumeGeometry, offset_bytes: u64, length_bytes: u32) -> (r: Result<
    (),
    i32,
>)
    ensures
        match r {
            Ok(()) => valid_range(*geometry, offset_bytes, length_bytes),
            Err(e) => !valid_range(*geometry, offset_bytes, length_bytes) && e
                == errno::INVALID_ARGUMENT,
        },
{
    if length_bytes == 0 {
        return Err(errno::einval());
    }
    let block_size: u64 = geometry.block_size_bytes as u64;
    if block_size == 0 {
        return Err(errno::einval());
    }
    if offset_bytes % block_size != 0 {
        return Err(errno::einval());
    }
    if length_bytes as u64 % block_size != 0 {
        return Err(errno::einval());
    }
    match offset_bytes.checked_add(length_bytes as u64) {
        Some(end) => if end > geometry.size_bytes {
            Err(errno::einval())
        } else {
            Ok(())
        },
        None => Err(errno::einval()),
    }
}

/// The error number that goes into a reply: a negative one is sent as `EIO`.
pub open spec fn sent_errno(errno: i32) -> i32 {
    if errno < 0 {
        errno::IO_ERROR
    } else {
        errno
    }
}

/// Whether `reply` answers the request with this handle, error number and payload.
pub open spec fn is_reply(reply: Seq<u8>, handle: Seq<u8>, errno: i32, payload: Seq<u8>) -> bool {
    &&& reply.len() == 16 + payload.len()
    &&& bytes::be_value(reply.subrange(0, 4)) == NBD_REPLY_MAGIC
    &&& bytes::be_value(reply.subrange(4, 8)) == sent_errno(errno)
    &&& reply.subrange(8, 16) == handle
    &&& reply.subrange(16, reply.len() as int) == payload
}

/// The bytes of a reply.
pub fn encode_reply(handle: [u8; 8], errno: i32, payload: &[u8]) -> (reply: Vec<u8>)
    ensures
        is_reply(reply@, handle@, errno, payload@),
{
    let sent: i32 = if errno < 0 {
        errno::eio()
    } else {
        errno
    };
    let mut reply: Vec<u8> = bytes::u32_bytes(NBD_REPLY_MAGIC);
    let mut number: Vec<u8> = bytes::u32_bytes(sent as u32);
    let ghost first = reply@;
    let ghost second = number@;
    reply.append(&mut number);
    let mut i: usize = 0;
    while i < 8
        invariant
            i <= 8,
            first.len() == 4,
            second.len() == 4,
            reply@ == first + second + handle@.subrange(0, i as int),
        decreases 8 - i,
    {
        assert(handle@.subrange(0, i as int).push(handle@[i as int]) =~= handle@.subrange(
            0,
            i + 1,
        ));
        reply.push(handle[i]);
        assert(reply@ =~= first + second + handle@.subrange(0, i + 1));
        i = i + 1;
    }
    reply.extend_from_slice(payload);
    proof {
        assert(handle@.subrange(0, 8) =~= handle@);
        assert(reply@ =~= first + second + handle@ + payload@);
        assert(reply@.subrange(0, 4) =~= first);
        assert(reply@.subrange(4, 8) =~= second);
        assert(reply@.subrange(8, 16) =~= handle@);
        assert(reply@.subrange(16, reply@.len() as int) =~= payload@);
    }
    reply
}

/// What a reply is about.
#[derive(Clone, Copy, Debug, PartialEq, Eq, Structural)]
pub enum ReplyPurpose {
    /// A read that is out of range.
    ReadError,
    /// A read that came back with the wrong length.
    ReadSize,
    Read,
    /// A write that is out of range.
    WriteError,
    Write,
    Flush,
    /// A command that is not known.
    Unsupported,
}

/// What is said when a reply cannot be sent, up to the reason.
pub open spec fn send_failure(purpose: ReplyPurpose) -> Seq<char> {
    match purpose {
        ReplyPurpose::ReadError => "failed to write read error reply: "@,
        ReplyPurpose::ReadSize => "failed to write read-size error reply: "@,
        ReplyPurpose::Read => "failed to write read reply: "@,
        ReplyPurpose::WriteError => "failed to write write error reply: "@,
        ReplyPurpose::Write => "failed to write write reply: "@,
        ReplyPurpose::Flush => "failed to write flush reply: "@,
        ReplyPurpose::Unsupported => "failed to write unsupported-cmd reply: "@,
    }
}

/// What came of reading a request header from the socket.
#[derive(Debug)]
pub enum HeaderInput {
    /// The socket was closed.
    EndOfStream,
    /// Reading failed.
    Failed(String),
    /// The bytes of a header.
    Raw(Vec<u8>),
}

/// What a request that waits for its answer asked for.
#[derive(Clone, Copy, Debug, PartialEq, Eq, Structural)]
pub enum RequestKind {
    Read,
    Write,
    Flush,
    Disconnect,
}

/// A request on its way to the engine.
#[derive(Debug)]
pub struct SubmitTask {
    pub header: RequestHeader,
    pub kind: RequestKind,
    pub command: BridgeCommand,
}

/// A reply to be sent.
#[derive(Debug)]
pub struct ReplyTask {
    pub purpose: ReplyPurpose,
    pub bytes: Vec<u8>,
}

/// What to do next with the socket.
#[derive(Debug)]
pub enum NbdStep {
    /// Read the next request header, unless the service is to stop.
    ReadHeader,
    /// Read as many bytes of payload as the header says.
    ReadPayload(RequestHeader),
    /// Hand a request to the engine.
    Submit(SubmitTask),
    /// Send a reply.
    Reply(ReplyTask),
    /// Leave the loop, with what went wrong, if something did.
    Stop(Option<String>),
}

/// Whether `step` hands the engine `command` for `header`.
pub open spec fn submits(
    step: NbdStep,
    header: RequestHeaderView,
    kind: RequestKind,
    command: BridgeCommandView,
) -> bool {
    step matches NbdStep::Submit(task) && task.header@ == header && task.kind == kind
        && task.command@ == command
}

/// Whether `step` answers the request with this handle.
pub open spec fn replies(
    step: NbdStep,
    purpose: ReplyPurpose,
    handle: Seq<u8>,
    errno: i32,
    payload: Seq<u8>,
) -> bool {
    step matches NbdStep::Reply(task) && task.purpose == purpose && is_reply(
        task.bytes@,
        handle,
        errno,
        payload,
    )
}

/// Whether `error` is there and says this.
pub open spec fn says(error: Option<String>, message: Seq<char>) -> bool {
    error matches Some(e) && e@ == message
}

/// Whether `step` leaves the loop over a failure with this description.
pub open spec fn stops_with(step: NbdStep, message: Seq<char>) -> bool {
    step matches NbdStep::Stop(error) && says(error, message)
}

/// Whether `step` is what follows the header of a request.
pub open spec fn header_handled(
    geometry: VolumeGeometry,
    header: RequestHeaderView,
    step: NbdStep,
) -> bool {
    if header.command() == NBD_CMD_READ {
        if valid_range(geometry, header.offset_bytes, header.length_bytes) {
            submits(
                step,
                header,
                RequestKind::Read,
                BridgeCommandView::Read {
                    offset_bytes: header.offset_bytes,
                    length_bytes: header.length_bytes,
                },
            )
        } else {
            replies(
                step,
                ReplyPurpose::ReadError,
                header.handle,
                errno::INVALID_ARGUMENT,
                Seq::empty(),
            )
        }
    } else if header.command() == NBD_CMD_WRITE {
        step matches NbdStep::ReadPayload(h) && h@ == header
    } else if header.command() == NBD_CMD_FLUSH {
        submits(step, header, RequestKind::Flush, BridgeCommandView::Flush)
    } else if header.command() == NBD_CMD_DISC {
        submits(step, header, RequestKind::Disconnect, BridgeCommandView::Disconnect)
    } else {
        replies(
            step,
            ReplyPurpose::Unsupported,
            header.handle,
            errno::INVALID_ARGUMENT,
            Seq::empty(),
        )
    }
}

/// Whether `step` is what follows an attempt to read a request header.
pub open spec fn input_handled(
    geometry: VolumeGeometry,
    input: HeaderInput,
    step: NbdStep,
) -> bool {
    match input {
        HeaderInput::EndOfStream => step == NbdStep::Stop(None),
        HeaderInput::Failed(detail) => stops_with(
            step,
            "failed to read nbd request header: "@ + detail@,
        ),
        HeaderInput::Raw(raw) => if header_magic(raw@) == NBD_REQUEST_MAGIC {
            header_handled(geometry, header_fields(raw@), step)
        } else {
            stops_with(
                step,
                "failed to read nbd request header: "@ + bad_magic(header_magic(raw@)),
            )
        },
    }
}

fn reply_step(purpose: ReplyPurpose, handle: [u8; 8], errno: i32, payload: &[u8]) -> (step: NbdStep)
    ensures
        replies(step, purpose, handle@, errno, payload@),
{
    NbdStep::Reply(ReplyTask { purpose, bytes: encode_reply(handle, errno, payload) })
}

fn error_step(purpose: ReplyPurpose, handle: [u8; 8], errno: i32) -> (step: NbdStep)
    ensures
        replies(step, purpose, handle@, errno, Seq::empty()),
{
    let nothing: Vec<u8> = Vec::new();
    reply_step(purpose, handle, errno, nothing.as_slice())
}

/// What follows an attempt to read a request header.
pub fn on_header(geometry: &VolumeGeometry, input: HeaderInput) -> (step: NbdStep)
    requires
        input matches HeaderInput::Raw(raw) ==> raw@.len() == REQUEST_HEADER_BYTES,
    ensures
        input_handled(*geometry, input, step),
{
    let raw: Vec<u8> = match input {
        HeaderInput::EndOfStream => {
            return NbdStep::Stop(None);
        },
        HeaderInput::Failed(detail) => {
            return NbdStep::Stop(
                Some(text::cat2("failed to read nbd request header: ", detail.as_str())),
            );
        },
        HeaderInput::Raw(raw) => raw,
    };
    let header: RequestHeader = match parse_request_header(raw.as_slice()) {
        Ok(header) => header,
        Err(detail) => {
            return NbdStep::Stop(
                Some(text::cat2("failed to read nbd request header: ", detail.as_str())),
            );
        },
    };
    let command: u32 = header.cmd_type % 0x1_0000;
    if command == NBD_CMD_READ {
        match validate_range(geometry, header.offset_bytes, header.length_bytes) {
            Ok(()) => NbdStep::Submit(
                SubmitTask {
                    header,
                    kind: RequestKind::Read,
                    command: BridgeCommand::Read {
                        offset_bytes: header.offset_bytes,
                        length_bytes: header.length_bytes,
                    },
                },
            ),
            Err(errno) => error_step(ReplyPurpose::ReadError, header.handle, errno),
        }
    } else if command == NBD_CMD_WRITE {
        NbdStep::ReadPayload(header)
    } else if command == NBD_CMD_FLUSH {
        NbdStep::Submit(
            SubmitTask { header, kind: RequestKind::Flush, command: BridgeCommand::Flush },
        )
    } else if command == NBD_CMD_DISC {
        NbdStep::Submit(
            SubmitTask {
                header,
                kind: RequestKind::Disconnect,
                command: BridgeCommand::Disconnect,
            },
        )
    } else {
        error_step(ReplyPurpose::Unsupported, header.handle, errno::einval())
    }
}

/// Whether `step` is what follows an attempt to read the payload of a write.
pub open spec fn payload_handled(
    geometry: VolumeGeometry,
    header: RequestHeaderView,
    payload: Result<Vec<u8>, String>,
    step: NbdStep,
) -> bool {
    match payload {
        Err(detail) => stops_with(step, "failed to read write payload: "@ + detail@),
        Ok(data) => if valid_range(geometry, header.offset_bytes, header.length_bytes) {
            submits(
                step,
                header,
                RequestKind::Write,
                BridgeCommandView::Write { offset_bytes: header.offset_bytes, data: data@ },
            )
        } else {
            replies(
                step,
                ReplyPurpose::WriteError,
                header.handle,
                errno::INVALID_ARGUMENT,
                Seq::empty(),
            )
        },
    }
}

/// What follows an attempt to read the payload of a write.
pub fn on_payload(
    geometry: &VolumeGeometry,
    header: RequestHeader,
    payload: Result<Vec<u8>, String>,
) -> (step: NbdStep)
    ensures
        payload_handled(*geometry, header@, payload, step),
{
    match payload {
        Err(detail) => NbdStep::Stop(
            Some(text::cat2("failed to read write payload: ", detail.as_str())),
        ),
        Ok(data) => match validate_range(geometry, header.offset_bytes, header.length_bytes) {
            Ok(()) => NbdStep::Submit(
                SubmitTask {
                    header,
                    kind: RequestKind::Write,
                    command: BridgeCommand::Write { offset_bytes: header.offset_bytes, data },
                },
            ),
            Err(errno) => error_step(ReplyPurpose::WriteError, header.handle, errno),
        },
    }
}

/// Whether `step` is what follows the engine's answer to a request.
pub open spec fn response_handled(
    header: RequestHeaderView,
    kind: RequestKind,
    response: BridgeResponse,
    step: NbdStep,
) -> bool {
    match kind {
        RequestKind::Read => if response.errno == 0 && response.data@.len()
            != header.length_bytes {
            replies(
                step,
                ReplyPurpose::ReadSize,
                header.handle,
                errno::IO_ERROR,
                Seq::empty(),
            )
        } else {
            replies(
                step,
                ReplyPurpose::Read,
                header.handle,
                response.errno,
                response.data@,
            )
        },
        RequestKind::Write => replies(
            step,
            ReplyPurpose::Write,
            header.handle,
            response.errno,
            Seq::empty(),
        ),
        RequestKind::Flush => replies(
            step,
            ReplyPurpose::Flush,
            header.handle,
            response.errno,
            Seq::empty(),
        ),
        RequestKind::Disconnect => step == NbdStep::Stop(None),
    }
}

/// What follows the engine's answer to a request. A read that succeeded with the wrong number of
/// bytes is answered with `EIO`; any other read carries whatever data the answer holds.
pub fn on_response(header: RequestHeader, kind: RequestKind, response: BridgeResponse) -> (step:
    NbdStep)
    ensures
        response_handled(header@, kind, response, step),
{
    match kind {
        RequestKind::Read => {
            if response.errno == 0 && response.data.len() != header.length_bytes as usize {
                error_step(ReplyPurpose::ReadSize, header.handle, errno::eio())
            } else {
                reply_step(
                    ReplyPurpose::Read,
                    header.handle,
                    response.errno,
                    response.data.as_slice(),
                )
            }
        },
        RequestKind::Write => error_step(ReplyPurpose::Write, header.handle, response.errno),
        RequestKind::Flush => error_step(ReplyPurpose::Flush, header.handle, response.errno),
        RequestKind::Disconnect => NbdStep::Stop(None),
    }
}

/// Whether `step` is what follows an attempt to send a reply.
pub open spec fn sending_handled(
    purpose: ReplyPurpose,
    sent: Result<(), String>,
    step: NbdStep,
) -> bool {
    match sent {
        Ok(()) => step == NbdStep::ReadHeader,
        Err(detail) => stops_with(step, send_failure(purpose) + detail@),
    }
}

/// What follows an attempt to send a reply.
pub fn on_reply(purpose: ReplyPurpose, sent: Result<(), String>) -> (step: NbdStep)
    ensures
        sending_handled(purpose, sent, step),
{
    match sent {
        Ok(()) => NbdStep::ReadHeader,
        Err(detail) => {
            let what: &str = match purpose {
                ReplyPurpose::ReadError => "failed to write read error reply: ",
                ReplyPurpose::ReadSize => "failed to write read-size error reply: ",
                ReplyPurpose::Read => "failed to write read reply: ",
                ReplyPurpose::WriteError => "failed to write write error reply: ",
                ReplyPurpose::Write => "failed to write write reply: ",
                ReplyPurpose::Flush => "failed to write flush reply: ",
                ReplyPurpose::Unsupported => "failed to write unsupported-cmd reply: ",
            };
            NbdStep::Stop(Some(text::cat2(what, detail.as_str())))
        },
    }
}

/// One call that sets the device up.
#[derive(Debug)]
pub struct SetupCall {
    /// The request code.
    pub request: u32,
    /// Its argument.
    pub arg: usize,
    /// What is said where it fails.
    pub failure: String,
}

/// What a `SetupCall` holds.
pub struct SetupCallView {
    pub request: u32,
    pub arg: int,
    pub failure: Seq<char>,
}

impl View for SetupCall {
    type V = SetupCallView;

    open spec fn view(&self) -> SetupCallView {
        SetupCallView { request: self.request, arg: self.arg as int, failure: self.failure@ }
    }
}

/// The calls that set the device up, in order, and what is said where they are not enough.
#[derive(Debug)]
pub struct SetupPlan {
    pub calls: Vec<SetupCall>,
    pub error: Option<String>,
}

/// What a list of setup calls holds.
pub open spec fn calls_view(calls: Seq<SetupCall>) -> Seq<SetupCallView> {
    Seq::new(calls.len(), |i: int| calls[i]@)
}

/// The calls that set a device up before it is given its socket.
pub open spec fn sizing_calls(geometry: VolumeGeometry, timeout_secs: u64) -> Seq<SetupCallView> {
    let sizes = seq![
        SetupCallView {
            request: NBD_SET_BLKSIZE,
            arg: geometry.block_size_bytes as int,
            failure: "NBD_SET_BLKSIZE failed"@,
        },
        SetupCallView {
            request: NBD_SET_SIZE_BLOCKS,
            arg: geometry.total_blocks as int,
            failure: "NBD_SET_SIZE_BLOCKS failed"@,
        },
    ];
    let timeout = if timeout_secs > 0 {
        seq![
            SetupCallView {
                request: NBD_SET_TIMEOUT,
                arg: timeout_secs as int,
                failure: "NBD_SET_TIMEOUT failed"@,
            },
        ]
    } else {
        seq![]
    };
    let flags = seq![
        SetupCallView {
            request: NBD_SET_FLAGS,
            arg: NBD_FLAGS as int,
            failure: "NBD_SET_FLAGS failed"@,
        },
    ];
    sizes + timeout + flags
}

/// Whether `plan` sets up a device for a volume and its socket.
pub open spec fn is_setup(
    plan: SetupPlan,
    geometry: VolumeGeometry,
    timeout_secs: u64,
    sock_fd: i32,
) -> bool {
    let calls = calls_view(plan.calls@);
    if geometry.total_blocks > usize::MAX {
        &&& calls == Seq::<SetupCallView>::empty()
        &&& says(plan.error, "total blocks does not fit ioctl arg"@)
    } else if timeout_secs > usize::MAX {
        &&& calls == Seq::<SetupCallView>::empty()
        &&& says(plan.error, "timeout does not fit ioctl arg"@)
    } else if sock_fd < 0 {
        &&& calls == sizing_calls(geometry, timeout_secs)
        &&& says(plan.error, "socket fd does not fit ioctl arg"@)
    } else {
        &&& calls == sizing_calls(geometry, timeout_secs).push(
            SetupCallView {
                request: NBD_SET_SOCK,
                arg: sock_fd as int,
                failure: "NBD_SET_SOCK failed"@,
            },
        )
        &&& plan.error is None
    }
}

fn setup_call(request: u32, arg: usize, failure: &str) -> (call: SetupCall)
    ensures
        call@ == (SetupCallView { request, arg: arg as int, failure: failure@ }),
{
    SetupCall { request, arg, failure: failure.to_owned() }
}

/// The calls that set the device up for a volume: its sizes, a timeout where one is wanted, its
/// flags and at last its socket. Each is made only where the one before succeeded.
pub fn configure_device(geometry: &VolumeGeometry, timeout_secs: u64, sock_fd: i32) -> (plan:
    SetupPlan)
    ensures
        is_setup(plan, *geometry, timeout_secs, sock_fd),
{
    let mut calls: Vec<SetupCall> = Vec::new();
    if geometry.total_blocks > usize::MAX as u64 {
        assert(calls_view(calls@) =~= Seq::<SetupCallView>::empty());
        return SetupPlan {
            calls,
            error: Some("total blocks does not fit ioctl arg".to_owned()),
        };
    }
    if timeout_secs > usize::MAX as u64 {
        assert(calls_view(calls@) =~= Seq::<SetupCallView>::empty());
        return SetupPlan { calls, error: Some("timeout does not fit ioctl arg".to_owned()) };
    }
    calls.push(
        setup_call(
            NBD_SET_BLKSIZE,
            geometry.block_size_bytes as usize,
            "NBD_SET_BLKSIZE failed",
        ),
    );
    calls.push(
        setup_call(
            NBD_SET_SIZE_BLOCKS,
            geometry.total_blocks as usize,
            "NBD_SET_SIZE_BLOCKS failed",
        ),
    );
    if timeout_secs > 0 {
        calls.push(
            setup_call(NBD_SET_TIMEOUT, timeout_secs as usize, "NBD_SET_TIMEOUT failed"),
        );
    }
    calls.push(setup_call(NBD_SET_FLAGS, NBD_FLAGS, "NBD_SET_FLAGS failed"));
    assert(calls_view(calls@) =~= sizing_calls(*geometry, timeout_secs));
    if sock_fd < 0 {
        return SetupPlan { calls, error: Some("socket fd does not fit ioctl arg".to_owned()) };
    }
    let ghost sizing = calls@;
    calls.push(setup_call(NBD_SET_SOCK, sock_fd as usize, "NBD_SET_SOCK failed"));
    assert(calls_view(calls@) =~= calls_view(sizing).push(calls@.last()@));
    SetupPlan { calls, error: None }
}

/// The calls that take a device down, in order, whatever comes of each.
pub fn teardown_calls() -> (calls: Vec<u32>)
    ensures
        calls@ == seq![NBD_DISCONNECT, NBD_CLEAR_QUE, NBD_CLEAR_SOCK],
{
    let mut calls: Vec<u32> = Vec::new();
    calls.push(NBD_DISCONNECT);
    calls.push(NBD_CLEAR_QUE);
    calls.push(NBD_CLEAR_SOCK);
    assert(calls@ =~= seq![NBD_DISCONNECT, NBD_CLEAR_QUE, NBD_CLEAR_SOCK]);
    calls
}

/// Whether the call that runs the device came to a regular end, where the system's number for a
/// socket that is not connected is `not_connected`.
pub open spec fn regular_end(rc: i32, errno: i32, not_connected: i32) -> bool {
    rc >= 0 || errno == not_connected || errno == errno::INVALID_ARGUMENT || errno
        == errno::BROKEN_PIPE
}

/// What came of the call that runs the device. Once the socket is cleared it commonly ends with
/// one of three error numbers; those count as a regular end.
pub fn do_it_result_given(rc: i32, errno: i32, not_connected: i32, detail: &str) -> (r: Result<
    (),
    String,
>)
    ensures
        match r {
            Ok(()) => regular_end(rc, errno, not_connected),
            Err(e) => !regular_end(rc, errno, not_connected) && e@ == "NBD_DO_IT failed: "@
                + detail@,
        },
{
    if rc >= 0 || errno == not_connected || errno == errno::einval() || errno == errno::epipe() {
        Ok(())
    } else {
        Err(text::cat2("NBD_DO_IT failed: ", detail))
    }
}

/// What came of the call that runs the device, on this system. Of the numbers that Linux gives a
/// socket that is not connected on one architecture or another, the one in use here counts as a
/// regular end; which one that is stays unsaid.
pub fn do_it_result(rc: i32, errno: i32, detail: &str) -> (r: Result<(), String>)
    ensures
        exists|not_connected: i32|
            #[trigger] errno::is_not_connected(not_connected) && (r is Ok <==> regular_end(
                rc,
                errno,
                not_connected,
            )),
        r matches Err(e) ==> e@ == "NBD_DO_IT failed: "@ + detail@,
{
    let not_connected: i32 = errno::enotconn();
    do_it_result_given(rc, errno, not_connected, detail)
}

/// How the thread that runs the device ended.
#[derive(Debug)]
pub enum DoItEnd {
    Panicked,
    Finished(Result<(), String>),
}

/// What a list of messages holds.
pub open spec fn messages_view(messages: Seq<String>) -> Seq<Seq<char>> {
    Seq::new(messages.len(), |i: int| messages[i]@)
}

/// What is reported when serving ends: messages from the outermost to the cause.
pub open spec fn serve_report(do_it: DoItEnd, loop_error: Option<String>) -> Option<
    Seq<Seq<char>>,
> {
    match do_it {
        DoItEnd::Panicked => Some(seq!["NBD_DO_IT thread panicked"@]),
        DoItEnd::Finished(Err(e)) => match loop_error {
            Some(cause) => Some(seq!["NBD_DO_IT also failed: "@ + e@, cause@]),
            None => Some(seq![e@]),
        },
        DoItEnd::Finished(Ok(())) => match loop_error {
            Some(cause) => Some(seq![cause@]),
            None => None,
        },
    }
}

/// What serving a device came to: a failure of the device call goes before one of the request
/// loop, which then is its cause.
pub fn serve_outcome(do_it: DoItEnd, loop_error: Option<String>) -> (r: Result<(), Vec<String>>)
    ensures
        match r {
            Ok(()) => serve_report(do_it, loop_error) is None,
            Err(messages) => serve_report(do_it, loop_error) == Some(messages_view(messages@)),
        },
{
    let mut messages: Vec<String> = Vec::new();
    match do_it {
        DoItEnd::Panicked => {
            messages.push("NBD_DO_IT thread panicked".to_owned());
            assert(messages_view(messages@) =~= seq!["NBD_DO_IT thread panicked"@]);
            Err(messages)
        },
        DoItEnd::Finished(result) => match result {
            Err(e) => match loop_error {
                Some(cause) => {
                    messages.push(text::cat2("NBD_DO_IT also failed: ", e.as_str()));
                    messages.push(cause);
                    assert(messages_view(messages@) =~= seq![
                        "NBD_DO_IT also failed: "@ + e@,
                        cause@,
                    ]);
                    Err(messages)
                },
                None => {
                    messages.push(e);
                    assert(messages_view(messages@) =~= seq![e@]);
                    Err(messages)
                },
            },
            Ok(()) => match loop_error {
                Some(cause) => {
                    messages.push(cause);
                    assert(messages_view(messages@) =~= seq![cause@]);
                    Err(messages)
                },
                None => Ok(()),
            },
        },
    }
}

/// Why a device cannot be served here, if it cannot.
pub open spec fn preflight_error(
    on_linux: bool,
    device_exists: bool,
    module_loaded: bool,
    device_path: Seq<char>,
) -> Option<Seq<char>> {
    if !on_linux {
        Some("attach mode is only supported on Linux hosts"@)
    } else if !device_exists {
        Some("NBD device "@ + device_path + " does not exist"@)
    } else if !module_loaded {
        Some(
            "nbd kernel module is not loaded (missing /sys/module/nbd). Run: sudo modprobe nbd max_part=0"@,
        )
    } else {
        None
    }
}

/// Checks that a device can be served: the host runs Linux, the device is there, and so is the
/// kernel module.
pub fn preflight(
    on_linux: bool,
    device_exists: bool,
    module_loaded: bool,
    device_path: &str,
) -> (r: Result<(), String>)
    ensures
        match r {
            Ok(()) => preflight_error(on_linux, device_exists, module_loaded, device_path@) is None,
            Err(e) => preflight_error(on_linux, device_exists, module_loaded, device_path@)
                == Some(e@),
        },
{
    if !on_linux {
        return Err("attach mode is only supported on Linux hosts".to_owned());
    }
    if !device_exists {
        return Err(text::cat3("NBD device ", device_path, " does not exist"));
    }
    if !module_loaded {
        return Err(
            "nbd kernel module is not loaded (missing /sys/module/nbd). Run: sudo modprobe nbd max_part=0".to_owned(),
        );
    }
    Ok(())
}

/// A handle, an error number and a payload determine the bytes of a reply.
pub proof fn law_reply_is_determined(
    a: Seq<u8>,
    b: Seq<u8>,
    handle: Seq<u8>,
    errno: i32,
    payload: Seq<u8>,
)
    requires
        is_reply(a, handle, errno, payload),
        is_reply(b, handle, errno, payload),
    ensures
        a == b,
{
    bytes::law_spelling_is_unique(a.subrange(0, 4), b.subrange(0, 4));
    bytes::law_spelling_is_unique(a.subrange(4, 8), b.subrange(4, 8));
    let end = a.len() as int;
    assert(a =~= a.subrange(0, 4) + a.subrange(4, 8) + a.subrange(8, 16) + a.subrange(16, end));
    assert(b =~= b.subrange(0, 4) + b.subrange(4, 8) + b.subrange(8, 16) + b.subrange(16, end));
}

/// A request that passed the range check is one that the engine accepts: its bytes are whole
/// blocks, and all of them are part of the volume.
pub proof fn law_checked_range_is_served(
    geometry: VolumeGeometry,
    offset_bytes: u64,
    length_bytes: u32,
)
    requires
        geometry.wf(),
        valid_range(geometry, offset_bytes, length_bytes),
    ensures
        bridge::lba_range(offset_bytes, length_bytes as u64, geometry.block_size_bytes) is Ok,
        bridge::lba_range(offset_bytes, length_bytes as u64, geometry.block_size_bytes) matches Ok(
            range,
        ) ==> range.1 > 0 && engine::range_error(
            geometry.total_blocks,
            range.0,
            range.1 as int,
        ) is None && range.0 * geometry.block_size_bytes == offset_bytes && range.1
            * geometry.block_size_bytes == length_bytes,
{
    let bs = geometry.block_size_bytes as int;
    let lba = offset_bytes as int / bs;
    let count = length_bytes as int / bs;
    vstd::arithmetic::div_mod::lemma_fundamental_div_mod(offset_bytes as int, bs);
    vstd::arithmetic::div_mod::lemma_fundamental_div_mod(length_bytes as int, bs);
    assert(bs * lba == lba * bs && bs * count == count * bs) by (nonlinear_arith);
    assert(count <= length_bytes && lba <= offset_bytes) by (nonlinear_arith)
        requires
            bs >= 1,
            bs * count == length_bytes,
            bs * lba == offset_bytes,
            count >= 0,
            lba >= 0,
    ;
    assert(count > 0) by (nonlinear_arith)
        requires
            bs * count == length_bytes,
            length_bytes > 0,
            bs >= 1,
    ;
    assert(lba + count <= geometry.total_blocks) by (nonlinear_arith)
        requires
            bs >= 1,
            bs * lba + bs * count <= geometry.total_blocks * bs,
    ;
}

/// What came of a step of the loop.
pub enum NbdEvent {
    /// A request header was read, or not.
    Header(HeaderInput),
    /// A payload was read, or not.
    Payload(Result<Vec<u8>, String>),
    /// The engine answered.
    Response(BridgeResponse),
    /// A reply was sent, or not.
    Sent(Result<(), String>),
}

/// Whether `event` came of `step` and leaves `next` to do. Nothing comes after the loop was left.
pub open spec fn follows(
    geometry: VolumeGeometry,
    step: NbdStep,
    event: NbdEvent,
    next: NbdStep,
) -> bool {
    match (step, event) {
        (NbdStep::ReadHeader, NbdEvent::Header(input)) => input_handled(geometry, input, next),
        (NbdStep::ReadPayload(header), NbdEvent::Payload(payload)) => payload_handled(
            geometry,
            header@,
            payload,
            next,
        ),
        (NbdStep::Submit(task), NbdEvent::Response(response)) => response_handled(
            task.header@,
            task.kind,
            response,
            next,
        ),
        (NbdStep::Reply(task), NbdEvent::Sent(sent)) => sending_handled(task.purpose, sent, next),
        _ => false,
    }
}

/// Whether the loop took these steps, as far as it came, where these events came of them.
pub open spec fn is_run(
    geometry: VolumeGeometry,
    steps: Seq<NbdStep>,
    events: Seq<NbdEvent>,
) -> bool {
    &&& steps.len() == events.len() + 1
    &&& steps[0] == NbdStep::ReadHeader
    &&& forall|i: int|
        0 <= i < events.len() ==> follows(geometry, steps[i], #[trigger] events[i], steps[i + 1])
}

/// The request that an event brought, if it did.
pub open spec fn request_of(event: NbdEvent) -> Option<RequestHeaderView> {
    match event {
        NbdEvent::Header(HeaderInput::Raw(raw)) => if header_magic(raw@) == NBD_REQUEST_MAGIC {
            Some(header_fields(raw@))
        } else {
            None
        },
        _ => None,
    }
}

/// The last request that the first `n` events brought, if they did.
pub open spec fn last_request(events: Seq<NbdEvent>, n: nat) -> Option<RequestHeaderView>
    decreases n,
{
    if n == 0 {
        None
    } else {
        match request_of(events[n - 1]) {
            Some(header) => Some(header),
            None => last_request(events, (n - 1) as nat),
        }
    }
}

/// The requests that the first `n` events brought and that want a reply: all but those to
/// disconnect.
pub open spec fn asked(events: Seq<NbdEvent>, n: nat) -> Seq<RequestHeaderView>
    decreases n,
{
    if n == 0 {
        seq![]
    } else {
        let before = asked(events, (n - 1) as nat);
        match request_of(events[n - 1]) {
            Some(header) => if header.command() == NBD_CMD_DISC {
                before
            } else {
                before.push(header)
            },
            None => before,
        }
    }
}

/// A reply before it is put into bytes.
pub struct ReplyView {
    pub handle: Seq<u8>,
    pub errno: i32,
    pub payload: Seq<u8>,
}

/// The refusal of a request.
pub open spec fn refused(header: RequestHeaderView) -> ReplyView {
    ReplyView { handle: header.handle, errno: errno::INVALID_ARGUMENT, payload: Seq::empty() }
}

/// The reply that is due once `event` came after the first `n` events, if one is.
pub open spec fn due_after(
    geometry: VolumeGeometry,
    events: Seq<NbdEvent>,
    n: nat,
    event: NbdEvent,
) -> Option<ReplyView> {
    match (event, last_request(events, n)) {
        (NbdEvent::Header(_), _) => match request_of(event) {
            Some(header) => if header.command() == NBD_CMD_READ {
                if valid_range(geometry, header.offset_bytes, header.length_bytes) {
                    None
                } else {
                    Some(refused(header))
                }
            } else if header.command() == NBD_CMD_WRITE || header.command() == NBD_CMD_FLUSH
                || header.command() == NBD_CMD_DISC {
                None
            } else {
                Some(refused(header))
            },
            None => None,
        },
        (NbdEvent::Payload(Ok(_)), Some(header)) => if valid_range(
            geometry,
            header.offset_bytes,
            header.length_bytes,
        ) {
            None
        } else {
            Some(refused(header))
        },
        (NbdEvent::Response(response), Some(header)) => if header.command() == NBD_CMD_DISC {
            None
        } else if header.command() != NBD_CMD_READ {
            Some(
                ReplyView {
                    handle: header.handle,
                    errno: response.errno,
                    payload: Seq::empty(),
                },
            )
        } else if response.errno == 0 && response.data@.len() != header.length_bytes {
            Some(
                ReplyView {
                    handle: header.handle,
                    errno: errno::IO_ERROR,
                    payload: Seq::empty(),
                },
            )
        } else {
            Some(
                ReplyView {
                    handle: header.handle,
                    errno: response.errno,
                    payload: response.data@,
                },
            )
        },
        _ => None,
    }
}

/// The replies that are due once the first `n` events came, in order.
pub open spec fn due(geometry: VolumeGeometry, events: Seq<NbdEvent>, n: nat) -> Seq<ReplyView>
    decreases n,
{
    if n == 0 {
        seq![]
    } else {
        let before = due(geometry, events, (n - 1) as nat);
        match due_after(geometry, events, (n - 1) as nat, events[n - 1]) {
            Some(reply) => before.push(reply),
            None => before,
        }
    }
}

/// The bytes of the replies that are to be sent in the first `n` steps, in order.
pub open spec fn reply_bytes(steps: Seq<NbdStep>, n: nat) -> Seq<Seq<u8>>
    decreases n,
{
    if n == 0 {
        seq![]
    } else {
        let before = reply_bytes(steps, (n - 1) as nat);
        match steps[n - 1] {
            NbdStep::Reply(task) => before.push(task.bytes@),
            _ => before,
        }
    }
}

/// Whether `bytes` are these replies, one for one.
pub open spec fn are_replies(bytes: Seq<Seq<u8>>, replies: Seq<ReplyView>) -> bool {
    &&& bytes.len() == replies.len()
    &&& forall|i: int|
        0 <= i < bytes.len() ==> is_reply(
            #[trigger] bytes[i],
            replies[i].handle,
            replies[i].errno,
            replies[i].payload,
        )
}

/// Whether a request is of this kind.
spec fn of_kind(header: RequestHeaderView, kind: RequestKind) -> bool {
    header.command() == match kind {
        RequestKind::Read => NBD_CMD_READ as int,
        RequestKind::Write => NBD_CMD_WRITE as int,
        RequestKind::Flush => NBD_CMD_FLUSH as int,
        RequestKind::Disconnect => NBD_CMD_DISC as int,
    }
}

/// Where the loop stands with its last request before a step.
spec fn in_turn(
    geometry: VolumeGeometry,
    events: Seq<NbdEvent>,
    n: nat,
    step: NbdStep,
) -> bool {
    let wanted = asked(events, n);
    let given = due(geometry, events, n);
    &&& given.len() <= wanted.len() <= given.len() + 1
    &&& forall|i: int| 0 <= i < given.len() ==> (#[trigger] given[i]).handle == wanted[i].handle
    &&& match step {
        NbdStep::ReadHeader => given.len() == wanted.len(),
        NbdStep::ReadPayload(header) => {
            &&& last_request(events, n) == Some(header@)
            &&& header@.command() == NBD_CMD_WRITE
            &&& wanted.len() == given.len() + 1
            &&& wanted.last() == header@
        },
        NbdStep::Submit(task) => {
            &&& last_request(events, n) == Some(task.header@)
            &&& of_kind(task.header@, task.kind)
            &&& if task.kind is Disconnect {
                wanted.len() == given.len()
            } else {
                wanted.len() == given.len() + 1 && wanted.last() == task.header@
            }
        },
        NbdStep::Reply(_) => given.len() == wanted.len(),
        NbdStep::Stop(_) => true,
    }
}

proof fn lemma_run(
    geometry: VolumeGeometry,
    steps: Seq<NbdStep>,
    events: Seq<NbdEvent>,
    n: nat,
)
    requires
        is_run(geometry, steps, events),
        n <= events.len(),
    ensures
        in_turn(geometry, events, n, steps[n as int]),
        are_replies(reply_bytes(steps, n + 1), due(geometry, events, n)),
    decreases n,
{
    if n == 0 {
        assert(reply_bytes(steps, 0) =~= seq![]);
        assert(reply_bytes(steps, 1) =~= seq![]);
    } else {
        let m = (n - 1) as nat;
        lemma_run(geometry, steps, events, m);
        let event = events[m as int];
        assert(follows(geometry, steps[m as int], event, steps[m as int + 1]));
        let before = due(geometry, events, m);
        let after = due(geometry, events, n);
        let bytes = reply_bytes(steps, n + 1);
        assert forall|i: int| 0 <= i < bytes.len() implies is_reply(
            #[trigger] bytes[i],
            after[i].handle,
            after[i].errno,
            after[i].payload,
        ) by {
            if i < before.len() {
                assert(bytes[i] == reply_bytes(steps, n)[i]);
                assert(after[i] == before[i]);
            }
        }
        assert forall|i: int| 0 <= i < after.len() implies (#[trigger] after[i]).handle == asked(
            events,
            n,
        )[i].handle by {
            if i < before.len() {
                assert(after[i] == before[i]);
                assert(asked(events, n)[i] == asked(events, m)[i]);
            }
        }
    }
}

/// Every request but one to disconnect is given one reply, in the order in which the requests
/// came, each with the handle of its request, and with what is due to it: `EINVAL` for a range or a
/// command that will not do, else what the engine answered. Before the next request is read all
/// that came before are answered; no more than one is ever open.
pub proof fn law_requests_are_answered_in_order(
    geometry: VolumeGeometry,
    steps: Seq<NbdStep>,
    events: Seq<NbdEvent>,
)
    requires
        is_run(geometry, steps, events),
    ensures
        ({
            let wanted = asked(events, events.len());
            let given = due(geometry, events, events.len());
            &&& are_replies(reply_bytes(steps, steps.len()), given)
            &&& forall|i: int|
                0 <= i < given.len() ==> (#[trigger] given[i]).handle == wanted[i].handle
            &&& given.len() <= wanted.len() <= given.len() + 1
            &&& steps.last() is ReadHeader || steps.last() is Reply ==> given.len() == wanted.len()
        }),
{
    lemma_run(geometry, steps, events, events.len());
}

/// Once a request to disconnect was read, nothing is read any more: it is handed to the engine, and
/// with the engine's answer, whatever that is, the loop is left without a failure and without a
/// reply.
pub proof fn law_nothing_is_read_after_disconnect(
    geometry: VolumeGeometry,
    steps: Seq<NbdStep>,
    events: Seq<NbdEvent>,
    at: int,
)
    requires
        is_run(geometry, steps, events),
        0 <= at < events.len(),
        request_of(events[at]) matches Some(header) && header.command() == NBD_CMD_DISC,
    ensures
        steps[at + 1] matches NbdStep::Submit(task) && task.command@ == BridgeCommandView::Disconnect,
        events.len() <= at + 2,
        events.len() == at + 2 ==> events[at + 1] is Response && steps.last() == NbdStep::Stop(None),
{
    assert(follows(geometry, steps[at], events[at], steps[at + 1]));
    if at + 1 < events.len() {
        assert(follows(geometry, steps[at + 1], events[at + 1], steps[at + 2]));
    }
    if at + 2 < events.len() {
        assert(follows(geometry, steps[at + 2], events[at + 2], steps[at + 3]));
    }
}

} // verus!
