//! What callers of the control protocol can count on, call by call and from one call to the next.
//!
//! `call_ensures(f, args, r)` says that `f`, called with `args`, returned `r`.
use crate::bytes;
use crate::control::fingerprint;
use crate::control::frame::{FrameProgress, StreamEnd};
use crate::control::frame;
use crate::control::protocol::{
    AddDeviceRequest, ControlRequest, EnvelopeBody, ErrorCode, Operation, ProtocolError,
    RemoveDeviceRequest, RequestBody, RequestEnvelope, ResponseEnvelope, ResponseResult,
};
use crate::control::protocol;
use crate::text;
use crate::text_calls;
use crate::ublk::manager_calls;
use vstd::prelude::*;

verus! {

/// The number that the first four bytes spell, the most significant one first.
pub open spec fn spelled(b: Seq<u8>) -> int {
    0x100_0000 * b[0] + 0x1_0000 * b[1] + 0x100 * b[2] + b[3]
}

proof fn lemma_spelled(b: Seq<u8>)
    requires
        b.len() >= 4,
    ensures
        frame::announced(b) == spelled(b),
{
    let s = b.subrange(0, 4);
    reveal_with_fuel(bytes::be_value, 5);
    assert(s.drop_last().drop_last().drop_last().drop_last() =~= Seq::<u8>::empty());
}

/// The four bytes of a number spell it, the most significant one first.
pub proof fn law_number_is_spelled_in_four_bytes(value: u32, r: Vec<u8>)
    requires
        call_ensures(bytes::u32_bytes, (value,), r),
    ensures
        r@.len() == 4,
        spelled(r@) == value,
{
    lemma_spelled(r@);
    assert(r@.subrange(0, 4) =~= r@);
}

/// A number is read from the four bytes that spell it.
pub proof fn law_number_is_read_from_four_bytes(b: &[u8], at: usize, r: u32)
    requires
        at + 4 <= b@.len(),
        call_ensures(bytes::read_u32, (b, at), r),
    ensures
        r == spelled(b@.skip(at as int)),
{
    let s = b@.subrange(at as int, at + 4);
    assert(b@.skip(at as int).subrange(0, 4) =~= s);
    lemma_spelled(b@.skip(at as int));
}

/// A number in eight bytes is read from its two halves.
pub proof fn law_number_is_read_from_eight_bytes(b: &[u8], at: usize, r: u64)
    requires
        at + 8 <= b@.len(),
        call_ensures(bytes::read_u64, (b, at), r),
    ensures
        r == 0x1_0000_0000 * spelled(b@.skip(at as int)) + spelled(b@.skip(at + 4)),
{
    let s = b@.subrange(at as int, at + 8);
    reveal_with_fuel(bytes::be_value, 9);
    let rest =
        s.drop_last().drop_last().drop_last().drop_last().drop_last().drop_last().drop_last().drop_last();
    assert(rest =~= Seq::<u8>::empty());
}

/// A frame is its payload's length in four bytes, and then the payload. Only a payload whose length
/// does not fit is not written.
pub proof fn law_frame_is_length_and_payload(payload: &[u8], r: Result<Vec<u8>, String>)
    requires
        call_ensures(frame::write_frame, (payload,), r),
    ensures
        r is Ok <==> payload@.len() <= u32::MAX,
        r matches Ok(written) ==> {
            &&& written@.len() == 4 + payload@.len()
            &&& spelled(written@) == payload@.len()
            &&& written@.skip(4) == payload@
        },
        r matches Err(e) ==> e@ == "payload exceeds u32::MAX"@,
{
    if let Ok(written) = r {
        lemma_spelled(written@);
        assert(written@.skip(4) =~= payload@);
    }
}

/// A frame is read once it is there as a whole, and gives its payload. Before that it is told how
/// many bytes it takes. A length of nothing, or over the limit, is refused as soon as it is known.
pub proof fn law_frame_is_read_when_it_is_there(
    buffer: &[u8],
    limit: usize,
    r: Result<FrameProgress, String>,
)
    requires
        call_ensures(frame::read_frame, (buffer, limit), r),
    ensures
        ({
            let len = spelled(buffer@);
            if buffer@.len() < 4 {
                r matches Ok(FrameProgress::NeedBytes(n)) && n == 4
            } else if len == 0 {
                r matches Err(e) && e@ == "payload length must be > 0"@
            } else if len > limit {
                r matches Err(e) && e@ == "payload length "@ + text::decimal(len as nat)
                    + " exceeds max "@ + text::decimal(limit as nat)
            } else if buffer@.len() < 4 + len {
                r matches Ok(FrameProgress::NeedBytes(n)) && n == 4 + len
            } else {
                r matches Ok(FrameProgress::Payload(payload)) && payload@ == buffer@.skip(4).take(
                    len,
                )
            }
        }),
{
    if buffer@.len() >= 4 {
        lemma_spelled(buffer@);
        if let Ok(FrameProgress::Payload(payload)) = r {
            assert(payload@ =~= buffer@.skip(4).take(spelled(buffer@)));
        }
    }
}

/// What is written as a frame is read back as it was, whatever follows it, where it is not empty and
/// within the reader's limit.
pub proof fn law_written_frame_is_read_back(
    payload: &[u8],
    written: Vec<u8>,
    stream: &[u8],
    rest: Seq<u8>,
    limit: usize,
    r: Result<FrameProgress, String>,
)
    requires
        0 < payload@.len() <= limit,
        call_ensures(frame::write_frame, (payload,), Ok(written)),
        stream@ == written@ + rest,
        call_ensures(frame::read_frame, (stream, limit), r),
    ensures
        r matches Ok(FrameProgress::Payload(back)) && back@ == payload@,
{
    frame::law_frame_round_trip(payload@, written@, rest, limit);
}

/// A stream that ends inside a payload cuts it short; one that ends before is over.
pub proof fn law_stream_ends_between_frames(received: usize, r: StreamEnd)
    requires
        call_ensures(frame::end_of_stream, (received,), r),
    ensures
        r is CutShort <==> received >= 4,
        r is Over <==> received < 4,
{
}

/// Adding and removing devices are what changes something, and every operation has its name.
pub proof fn law_operations_are_told_apart(op: Operation, mutating: bool, name: &'static str)
    requires
        call_ensures(Operation::is_mutating, (op,), mutating),
        call_ensures(Operation::to_name, (op,), name),
    ensures
        mutating <==> op is AddDevice || op is RemoveDevice,
        op is AddDevice ==> name@ == "AddDevice"@,
        op is RemoveDevice ==> name@ == "RemoveDevice"@,
        op is ListDevices ==> name@ == "ListDevices"@,
        op is Health ==> name@ == "Health"@,
{
}

/// A request asks for the operation that its body is for.
pub proof fn law_operation_is_that_of_the_body(request: ControlRequest, op: Operation)
    requires
        call_ensures(ControlRequest::operation, (&request,), op),
    ensures
        op is AddDevice <==> request.body is AddDevice,
        op is RemoveDevice <==> request.body is RemoveDevice,
        op is ListDevices <==> request.body is ListDevices,
        op is Health <==> request.body is Health,
{
}

/// A response that a request succeeded carries its result, and one that it failed the reason.
pub proof fn law_responses_carry_result_or_reason(
    request_id: String,
    result: ResponseResult,
    good: ResponseEnvelope,
    code: ErrorCode,
    message: &str,
    bad: ResponseEnvelope,
)
    requires
        call_ensures(ResponseEnvelope::ok, (request_id, result), good),
        call_ensures(ResponseEnvelope::error, (request_id, code, message), bad),
    ensures
        manager_calls::grants(good, request_id@),
        good.result is Some,
        good.result->0@ == result@,
        manager_calls::refuses(bad, request_id@, code, message@),
{
}

/// A request that was not understood is refused for the reason that was found, under its identifier
/// where that is known.
pub proof fn law_misunderstanding_is_answered(error: ProtocolError, r: ResponseEnvelope)
    requires
        call_ensures(ResponseEnvelope::from_protocol_error, (error,), r),
    ensures
        r.version@ == "v1"@,
        error.request_id is Some ==> r.request_id@ == error.request_id->0@,
        error.request_id is None ==> r.request_id@.len() == 0,
        !r.ok,
        r.result is None,
        r.error is Some,
        r.error->0.code == error.error.code,
        r.error->0.message@ == error.error.message@,
        r.error->0.details@ == error.error.details@,
{
}

/// Whether a text holds nothing but blanks.
pub open spec fn all_blank(s: Seq<char>) -> bool {
    forall|i: int| 0 <= i < s.len() ==> text_calls::white(#[trigger] s[i])
}

/// Whether the body of an envelope can be done without, or what is wrong with it.
pub open spec fn body_fault(body: EnvelopeBody, message: Seq<char>) -> bool {
    match body {
        EnvelopeBody::AddDevice(Err(detail)) => message == "invalid AddDevice body: "@ + detail@,
        EnvelopeBody::RemoveDevice(Err(detail)) => message == "invalid RemoveDevice body: "@
            + detail@,
        EnvelopeBody::ListDevices(Err(detail)) => message == "invalid ListDevices body: "@
            + detail@,
        EnvelopeBody::Health(Err(detail)) => message == "invalid Health body: "@ + detail@,
        EnvelopeBody::AddDevice(Ok(a)) => all_blank(a.volume_id@) && message
            == "AddDevice body.volume_id must be non-empty"@,
        EnvelopeBody::RemoveDevice(Ok(a)) => a.device_id is None && (a.volume_id is None
            || all_blank(a.volume_id->0@)) && message
            == "RemoveDevice requires device_id or volume_id"@,
        _ => false,
    }
}

/// Whether an envelope asks for a device to be added or removed.
pub open spec fn asks_for_change(body: EnvelopeBody) -> bool {
    body is AddDevice || body is RemoveDevice
}

/// Whether an envelope lacks the key that its operation needs.
pub open spec fn lacks_key(envelope: RequestEnvelope) -> bool {
    asks_for_change(envelope.body) && (envelope.idempotency_key is None || all_blank(
        envelope.idempotency_key->0@,
    ))
}

/// Whether this is wrong with an envelope. Its version is looked at first, then its identifier, the
/// key, and last its body.
pub open spec fn fault(envelope: RequestEnvelope, message: Seq<char>) -> bool {
    if envelope.version@ != "v1"@ {
        message == "unsupported protocol version '"@ + envelope.version@ + "' (expected '"@ + "v1"@
            + "')"@
    } else if all_blank(envelope.request_id@) {
        message == "request_id must be non-empty"@
    } else if lacks_key(envelope) {
        message == "idempotency_key is required and non-empty for "@ + if envelope.body is AddDevice {
            "AddDevice"@
        } else {
            "RemoveDevice"@
        }
    } else {
        body_fault(envelope.body, message)
    }
}

/// Whether a request says the same as the body of an envelope.
pub open spec fn same_body(envelope: EnvelopeBody, body: RequestBody) -> bool {
    match body {
        RequestBody::AddDevice(b) => envelope matches EnvelopeBody::AddDevice(Ok(a)) && a == b,
        RequestBody::RemoveDevice(b) => envelope matches EnvelopeBody::RemoveDevice(Ok(a)) && a
            == b,
        RequestBody::ListDevices(b) => envelope matches EnvelopeBody::ListDevices(Ok(a)) && a == b,
        RequestBody::Health(_) => envelope matches EnvelopeBody::Health(Ok(_)),
    }
}

proof fn lemma_all_blank(s: Seq<char>)
    ensures
        all_blank(s) <==> text::trimmed(s).len() == 0,
        all_blank(s) <==> text::is_blank(s),
{
    text_calls::lemma_blank(s);
    text_calls::lemma_trimmed_is_core(s);
    let t = text::trimmed(s);
    let from = choose|from: int|
        0 <= from && from + t.len() <= s.len() && t == #[trigger] s.subrange(
            from,
            from + t.len(),
        ) && (forall|i: int| 0 <= i < from ==> text_calls::white(#[trigger] s[i])) && (forall|
            i: int,
        | from + t.len() <= i < s.len() ==> text_calls::white(#[trigger] s[i]));
    if t.len() == 0 {
        assert forall|i: int| 0 <= i < s.len() implies text_calls::white(#[trigger] s[i]) by {}
    } else {
        assert(s[from] == t[0]);
    }
}

/// What becomes of an envelope, stated by its fields.
pub proof fn lemma_decoded(
    envelope: RequestEnvelope,
    r: Result<ControlRequest, ProtocolError>,
)
    requires
        protocol::is_decoded(Ok(envelope), r),
    ensures
        match r {
            Ok(request) => {
                &&& forall|message: Seq<char>| !#[trigger] fault(envelope, message)
                &&& request.request_id@ == envelope.request_id@
                &&& match request.idempotency_key {
                    None => manager_calls::names(envelope.idempotency_key, None),
                    Some(key) => manager_calls::names(envelope.idempotency_key, Some(key@)),
                }
                &&& same_body(envelope.body, request.body)
            },
            Err(e) => {
                &&& fault(envelope, e.error.message@)
                &&& e.request_id is Some
                &&& e.request_id->0@ == envelope.request_id@
                &&& e.error.code is InvalidArgument
                &&& e.error.details@ == "{}"@
            },
        },
{
    lemma_all_blank(envelope.request_id@);
    if let Some(key) = envelope.idempotency_key {
        lemma_all_blank(key@);
        text_calls::lemma_trimmed_is_core(key@);
        if text::trimmed(key@).len() == 0 {
            assert(text::trimmed(key@) =~= Seq::empty());
        }
    }
    match envelope.body {
        EnvelopeBody::AddDevice(Ok(a)) => lemma_all_blank(a.volume_id@),
        EnvelopeBody::RemoveDevice(Ok(a)) => {
            if let Some(v) = a.volume_id {
                lemma_all_blank(v@);
            }
        },
        _ => {},
    }
}

/// A request is understood where nothing is wrong with its envelope, and then says what was sent,
/// under the same identifier; its key loses the blanks around it. Else the first thing that is wrong
/// is told.
pub proof fn law_request_is_understood_or_refused(
    payload: Result<RequestEnvelope, String>,
    r: Result<ControlRequest, ProtocolError>,
)
    requires
        call_ensures(protocol::decode_request, (payload,), r),
    ensures
        payload matches Err(detail) ==> (r matches Err(e) && {
            &&& e.request_id is None
            &&& e.error.code is InvalidArgument
            &&& e.error.message@ == "invalid JSON payload: "@ + detail@
            &&& e.error.details@ == "{}"@
        }),
        payload matches Ok(envelope) ==> match r {
            Ok(request) => {
                &&& forall|message: Seq<char>| !#[trigger] fault(envelope, message)
                &&& request.request_id@ == envelope.request_id@
                &&& match request.idempotency_key {
                    None => manager_calls::names(envelope.idempotency_key, None),
                    Some(key) => manager_calls::names(envelope.idempotency_key, Some(key@)),
                }
                &&& same_body(envelope.body, request.body)
            },
            Err(e) => {
                &&& fault(envelope, e.error.message@)
                &&& e.request_id is Some
                &&& e.request_id->0@ == envelope.request_id@
                &&& e.error.code is InvalidArgument
                &&& e.error.details@ == "{}"@
            },
        },
{
    if let Ok(envelope) = payload {
        lemma_decoded(envelope, r);
    }
}

/// A text that may be missing is taken without the blanks around it, and is missing where nothing is
/// left of it.
pub proof fn law_text_of_blanks_is_missing(value: Option<String>, r: Option<String>)
    requires
        call_ensures(protocol::trim_present, (&value,), r),
    ensures
        match r {
            None => manager_calls::names(value, None),
            Some(t) => manager_calls::names(value, Some(t@)),
        },
{
    if let Some(s) = value {
        text_calls::lemma_trimmed_is_core(s@);
        if text::trimmed(s@).len() == 0 {
            assert(text::trimmed(s@) =~= Seq::empty());
        }
    }
}

/// Two requests to add a device have the same fingerprint only where they ask for the same. (Missing
/// overrides and overrides that are the JSON value `null` are set aside as a pair.)
pub proof fn law_different_additions_are_told_apart(
    first: ControlRequest,
    second: ControlRequest,
    a: AddDeviceRequest,
    b: AddDeviceRequest,
    print: Vec<u8>,
    other: Vec<u8>,
)
    requires
        first.body == RequestBody::AddDevice(a),
        second.body == RequestBody::AddDevice(b),
        call_ensures(ControlRequest::body_fingerprint, (&first,), Ok(print)),
        call_ensures(ControlRequest::body_fingerprint, (&second,), Ok(other)),
        !(a.overrides is None && b.overrides is Some && b.overrides->0@ == "null"@),
        !(b.overrides is None && a.overrides is Some && a.overrides->0@ == "null"@),
    ensures
        print@ == other@ <==> {
            &&& a.volume_id@ == b.volume_id@
            &&& a.ublk_device_id == b.ublk_device_id
            &&& a.overrides is Some <==> b.overrides is Some
            &&& a.overrides is Some ==> a.overrides->0@ == b.overrides->0@
        },
{
    if print@ == other@ {
        fingerprint::law_add_fingerprints_differ(a, b);
    }
}

/// Two requests to remove a device have the same fingerprint only where they ask for the same.
pub proof fn law_different_removals_are_told_apart(
    first: ControlRequest,
    second: ControlRequest,
    a: RemoveDeviceRequest,
    b: RemoveDeviceRequest,
    print: Vec<u8>,
    other: Vec<u8>,
)
    requires
        first.body == RequestBody::RemoveDevice(a),
        second.body == RequestBody::RemoveDevice(b),
        call_ensures(ControlRequest::body_fingerprint, (&first,), Ok(print)),
        call_ensures(ControlRequest::body_fingerprint, (&second,), Ok(other)),
    ensures
        print@ == other@ <==> {
            &&& a.device_id == b.device_id
            &&& a.volume_id is Some <==> b.volume_id is Some
            &&& a.volume_id is Some ==> a.volume_id->0@ == b.volume_id->0@
            &&& a.force == b.force
        },
{
    if print@ == other@ {
        fingerprint::law_remove_fingerprints_differ(a, b);
    }
}

/// A number that may be missing, as it stands in a fingerprint.
pub open spec fn written_number(n: Option<u32>) -> Seq<char> {
    if n is Some {
        text::decimal(n->0 as nat)
    } else {
        "null"@
    }
}

/// A text that may be missing, as it stands in a fingerprint.
pub open spec fn written_text(t: Option<String>) -> Seq<char> {
    if t is Some {
        fingerprint::json_string(t->0@)
    } else {
        "null"@
    }
}

/// A fingerprint is the body of the request as a JSON object, with its fields in their order; it can
/// always be made.
pub proof fn law_fingerprint_is_the_body(
    request: ControlRequest,
    r: Result<Vec<u8>, serde_json::Error>,
)
    requires
        call_ensures(ControlRequest::body_fingerprint, (&request,), r),
    ensures
        r is Ok,
        r->Ok_0@ == vstd::utf8::encode_utf8(
            match request.body {
                RequestBody::AddDevice(a) => "{\"volume_id\":"@ + fingerprint::json_string(
                    a.volume_id@,
                ) + ",\"ublk_device_id\":"@ + written_number(a.ublk_device_id)
                    + ",\"overrides\":"@ + (if a.overrides is Some {
                    a.overrides->0@
                } else {
                    "null"@
                }) + "}"@,
                RequestBody::RemoveDevice(a) => "{\"device_id\":"@ + written_number(a.device_id)
                    + ",\"volume_id\":"@ + written_text(a.volume_id) + (if a.force {
                    ",\"force\":true}"@
                } else {
                    ",\"force\":false}"@
                }),
                RequestBody::ListDevices(a) => "{\"device_id\":"@ + written_number(a.device_id)
                    + ",\"volume_id\":"@ + written_text(a.volume_id) + ",\"state\":"@
                    + written_text(a.state) + "}"@,
                RequestBody::Health(_) => "{}"@,
            },
        ),
{
}

} // verus!
