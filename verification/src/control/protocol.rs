//! Requests and responses of the control protocol.
use crate::text;
use crate::ublk::device::{
    AddDeviceResult, AddDeviceResultView, DeviceStatusView, HealthResult, HealthResultView,
    ListDevicesResult, RemoveDeviceResult, RemoveDeviceResultView,
};
use crate::ublk::device;
use vstd::prelude::*;

verus! {

/// The protocol that is spoken.
pub const PROTOCOL_VERSION: &'static str = "v1";

/// The most bytes that a payload has, where nothing else is said.
pub const DEFAULT_MAX_PAYLOAD_BYTES: usize = 1_048_576;

/// What a request asks for.
#[derive(Clone, Copy, Debug, PartialEq, Eq, Hash, Structural)]
pub enum Operation {
    AddDevice,
    RemoveDevice,
    ListDevices,
    Health,
}

impl Operation {
    /// The operation changes what devices there are.
    pub open spec fn mutating(self) -> bool {
        self is AddDevice || self is RemoveDevice
    }

    /// The name of the operation.
    pub open spec fn name(self) -> Seq<char> {
        match self {
            Operation::AddDevice => "AddDevice"@,
            Operation::RemoveDevice => "RemoveDevice"@,
            Operation::ListDevices => "ListDevices"@,
            Operation::Health => "Health"@,
        }
    }

    /// Whether the operation changes what devices there are.
    pub fn is_mutating(self) -> (r: bool)
        ensures
            r == self.mutating(),
    {
        match self {
            Operation::AddDevice | Operation::RemoveDevice => true,
            Operation::ListDevices | Operation::Health => false,
        }
    }

    /// The name of the operation.
    pub fn to_name(self) -> (r: &'static str)
        ensures
            r@ == self.name(),
    {
        match self {
            Operation::AddDevice => "AddDevice",
            Operation::RemoveDevice => "RemoveDevice",
            Operation::ListDevices => "ListDevices",
            Operation::Health => "Health",
        }
    }
}

/// The class of a failure.
#[derive(Clone, Copy, Debug, PartialEq, Eq, Structural)]
pub enum ErrorCode {
    InvalidArgument,
    AlreadyExists,
    NotFound,
    Busy,
    Internal,
    Timeout,
    Unavailable,
}

/// A failure as it is reported. `details` is a JSON object.
#[derive(Debug, PartialEq, Eq)]
pub struct ErrorBody {
    pub code: ErrorCode,
    pub message: String,
    pub details: String,
}

/// What an `ErrorBody` holds.
pub struct ErrorBodyView {
    pub code: ErrorCode,
    pub message: Seq<char>,
    pub details: Seq<char>,
}

impl View for ErrorBody {
    type V = ErrorBodyView;

    open spec fn view(&self) -> ErrorBodyView {
        ErrorBodyView { code: self.code, message: self.message@, details: self.details@ }
    }
}

impl Clone for ErrorBody {
    fn clone(&self) -> (r: Self)
        ensures
            r == *self,
    {
        ErrorBody {
            code: self.code,
            message: self.message.clone(),
            details: self.details.clone(),
        }
    }
}

/// A failure without details.
pub open spec fn error_body(code: ErrorCode, message: Seq<char>) -> ErrorBodyView {
    ErrorBodyView { code, message, details: "{}"@ }
}

impl ErrorBody {
    /// A failure without details.
    pub fn new(code: ErrorCode, message: &str) -> (r: Self)
        ensures
            r@ == error_body(code, message@),
    {
        ErrorBody { code, message: message.to_owned(), details: "{}".to_owned() }
    }
}

/// What a successful request gives.
#[derive(Debug, PartialEq, Eq)]
pub enum ResponseResult {
    AddDevice(AddDeviceResult),
    RemoveDevice(RemoveDeviceResult),
    ListDevices(ListDevicesResult),
    Health(HealthResult),
}

/// What a `ResponseResult` holds.
pub enum ResponseResultView {
    AddDevice(AddDeviceResultView),
    RemoveDevice(RemoveDeviceResultView),
    ListDevices(Seq<DeviceStatusView>),
    Health(HealthResultView),
}

impl View for ResponseResult {
    type V = ResponseResultView;

    open spec fn view(&self) -> ResponseResultView {
        match self {
            ResponseResult::AddDevice(r) => ResponseResultView::AddDevice(r@),
            ResponseResult::RemoveDevice(r) => ResponseResultView::RemoveDevice(r@),
            ResponseResult::ListDevices(r) => ResponseResultView::ListDevices(r@),
            ResponseResult::Health(r) => ResponseResultView::Health(r@),
        }
    }
}

impl Clone for ResponseResult {
    fn clone(&self) -> (r: Self)
        ensures
            r@ == self@,
    {
        match self {
            ResponseResult::AddDevice(r) => ResponseResult::AddDevice(r.clone()),
            ResponseResult::RemoveDevice(r) => ResponseResult::RemoveDevice(r.clone()),
            ResponseResult::ListDevices(r) => ResponseResult::ListDevices(r.clone()),
            ResponseResult::Health(r) => ResponseResult::Health(r.clone()),
        }
    }
}

/// The answer to a request.
#[derive(Debug, PartialEq, Eq)]
pub struct ResponseEnvelope {
    pub version: String,
    pub request_id: String,
    pub ok: bool,
    pub result: Option<ResponseResult>,
    pub error: Option<ErrorBody>,
}

/// What a `ResponseEnvelope` holds.
pub struct ResponseView {
    pub version: Seq<char>,
    pub request_id: Seq<char>,
    pub ok: bool,
    pub result: Option<ResponseResultView>,
    pub error: Option<ErrorBodyView>,
}

/// What a result that may be missing holds.
pub open spec fn result_view(r: Option<ResponseResult>) -> Option<ResponseResultView> {
    match r {
        Some(result) => Some(result@),
        None => None,
    }
}

/// What a failure that may be missing holds.
pub open spec fn error_view(e: Option<ErrorBody>) -> Option<ErrorBodyView> {
    match e {
        Some(error) => Some(error@),
        None => None,
    }
}

impl View for ResponseEnvelope {
    type V = ResponseView;

    open spec fn view(&self) -> ResponseView {
        ResponseView {
            version: self.version@,
            request_id: self.request_id@,
            ok: self.ok,
            result: result_view(self.result),
            error: error_view(self.error),
        }
    }
}

/// A copy of a result that may be missing.
pub fn copy_result(r: &Option<ResponseResult>) -> (c: Option<ResponseResult>)
    ensures
        result_view(c) == result_view(*r),
{
    match r {
        Some(result) => Some(result.clone()),
        None => None,
    }
}

/// A copy of a failure that may be missing.
pub fn copy_error(e: &Option<ErrorBody>) -> (c: Option<ErrorBody>)
    ensures
        error_view(c) == error_view(*e),
{
    match e {
        Some(error) => Some(error.clone()),
        None => None,
    }
}

impl Clone for ResponseEnvelope {
    fn clone(&self) -> (r: Self)
        ensures
            r@ == self@,
    {
        ResponseEnvelope {
            version: self.version.clone(),
            request_id: self.request_id.clone(),
            ok: self.ok,
            result: copy_result(&self.result),
            error: copy_error(&self.error),
        }
    }
}

/// The answer to a request that succeeded.
pub open spec fn success(request_id: Seq<char>, result: ResponseResultView) -> ResponseView {
    ResponseView {
        version: PROTOCOL_VERSION@,
        request_id,
        ok: true,
        result: Some(result),
        error: None,
    }
}

/// The answer to a request that failed.
pub open spec fn failure(request_id: Seq<char>, code: ErrorCode, message: Seq<char>) -> ResponseView {
    ResponseView {
        version: PROTOCOL_VERSION@,
        request_id,
        ok: false,
        result: None,
        error: Some(error_body(code, message)),
    }
}

impl ResponseEnvelope {
    /// The answer to a request that succeeded.
    pub fn ok(request_id: String, result: ResponseResult) -> (r: Self)
        ensures
            r@ == success(request_id@, result@),
    {
        ResponseEnvelope {
            version: PROTOCOL_VERSION.to_owned(),
            request_id,
            ok: true,
            result: Some(result),
            error: None,
        }
    }

    /// The answer to a request that failed.
    pub fn error(request_id: String, code: ErrorCode, message: &str) -> (r: Self)
        ensures
            r@ == failure(request_id@, code, message@),
    {
        ResponseEnvelope {
            version: PROTOCOL_VERSION.to_owned(),
            request_id,
            ok: false,
            result: None,
            error: Some(ErrorBody::new(code, message)),
        }
    }

    /// The answer to a request that could not be understood.
    pub fn from_protocol_error(error: ProtocolError) -> (r: Self)
        ensures
            r@ == refusal(error@),
    {
        let request_id: String = match error.request_id {
            Some(id) => id,
            None => String::new(),
        };
        ResponseEnvelope {
            version: PROTOCOL_VERSION.to_owned(),
            request_id,
            ok: false,
            result: None,
            error: Some(error.error),
        }
    }
}

/// A device to be added. `overrides` is a JSON value.
#[derive(Debug, PartialEq, Eq)]
pub struct AddDeviceRequest {
    pub volume_id: String,
    pub ublk_device_id: Option<u32>,
    pub overrides: Option<String>,
}

impl Clone for AddDeviceRequest {
    fn clone(&self) -> (r: Self)
        ensures
            r == *self,
    {
        AddDeviceRequest {
            volume_id: self.volume_id.clone(),
            ublk_device_id: self.ublk_device_id,
            overrides: device::copy_text(&self.overrides),
        }
    }
}

/// A device to be removed.
#[derive(Debug, PartialEq, Eq)]
pub struct RemoveDeviceRequest {
    pub device_id: Option<u32>,
    pub volume_id: Option<String>,
    pub force: bool,
}

impl Clone for RemoveDeviceRequest {
    fn clone(&self) -> (r: Self)
        ensures
            r == *self,
    {
        RemoveDeviceRequest {
            device_id: self.device_id,
            volume_id: device::copy_text(&self.volume_id),
            force: self.force,
        }
    }
}

/// Which devices to list.
#[derive(Debug, PartialEq, Eq)]
pub struct ListDevicesRequest {
    pub device_id: Option<u32>,
    pub volume_id: Option<String>,
    pub state: Option<String>,
}

impl Clone for ListDevicesRequest {
    fn clone(&self) -> (r: Self)
        ensures
            r == *self,
    {
        ListDevicesRequest {
            device_id: self.device_id,
            volume_id: device::copy_text(&self.volume_id),
            state: device::copy_text(&self.state),
        }
    }
}

impl Default for ListDevicesRequest {
    fn default() -> (r: Self)
        ensures
            r == (ListDevicesRequest { device_id: None, volume_id: None, state: None }),
    {
        ListDevicesRequest { device_id: None, volume_id: None, state: None }
    }
}

/// How the service is doing.
#[derive(Clone, Copy, Debug, PartialEq, Eq)]
pub struct HealthRequest {}

/// A request without its envelope.
#[derive(Debug, PartialEq, Eq)]
pub enum RequestBody {
    AddDevice(AddDeviceRequest),
    RemoveDevice(RemoveDeviceRequest),
    ListDevices(ListDevicesRequest),
    Health(HealthRequest),
}

impl Clone for RequestBody {
    fn clone(&self) -> (r: Self)
        ensures
            r == *self,
    {
        match self {
            RequestBody::AddDevice(body) => RequestBody::AddDevice(body.clone()),
            RequestBody::RemoveDevice(body) => RequestBody::RemoveDevice(body.clone()),
            RequestBody::ListDevices(body) => RequestBody::ListDevices(body.clone()),
            RequestBody::Health(body) => RequestBody::Health(*body),
        }
    }
}

impl RequestBody {
    /// What the request asks for.
    pub open spec fn operation(self) -> Operation {
        match self {
            RequestBody::AddDevice(_) => Operation::AddDevice,
            RequestBody::RemoveDevice(_) => Operation::RemoveDevice,
            RequestBody::ListDevices(_) => Operation::ListDevices,
            RequestBody::Health(_) => Operation::Health,
        }
    }
}

/// A request that was understood.
#[derive(Debug, PartialEq, Eq)]
pub struct ControlRequest {
    pub request_id: String,
    pub idempotency_key: Option<String>,
    pub body: RequestBody,
}

impl Clone for ControlRequest {
    fn clone(&self) -> (r: Self)
        ensures
            r == *self,
    {
        ControlRequest {
            request_id: self.request_id.clone(),
            idempotency_key: device::copy_text(&self.idempotency_key),
            body: self.body.clone(),
        }
    }
}

impl ControlRequest {
    /// What the request asks for.
    pub fn operation(&self) -> (r: Operation)
        ensures
            r == self.body.operation(),
    {
        match &self.body {
            RequestBody::AddDevice(_) => Operation::AddDevice,
            RequestBody::RemoveDevice(_) => Operation::RemoveDevice,
            RequestBody::ListDevices(_) => Operation::ListDevices,
            RequestBody::Health(_) => Operation::Health,
        }
    }
}

/// Why a request was not understood.
#[derive(Debug, PartialEq, Eq)]
pub struct ProtocolError {
    pub request_id: Option<String>,
    pub error: ErrorBody,
}

impl Clone for ProtocolError {
    fn clone(&self) -> (r: Self)
        ensures
            r@ == self@,
    {
        ProtocolError {
            request_id: device::copy_text(&self.request_id),
            error: self.error.clone(),
        }
    }
}

/// What a `ProtocolError` holds.
pub struct ProtocolErrorView {
    pub request_id: Option<Seq<char>>,
    pub error: ErrorBodyView,
}

impl View for ProtocolError {
    type V = ProtocolErrorView;

    open spec fn view(&self) -> ProtocolErrorView {
        ProtocolErrorView {
            request_id: device::text_view(self.request_id),
            error: self.error@,
        }
    }
}

impl ProtocolError {
    /// A failure of this class.
    pub fn new(request_id: Option<String>, code: ErrorCode, message: &str) -> (r: Self)
        ensures
            r@ == (ProtocolErrorView {
                request_id: device::text_view(request_id),
                error: error_body(code, message@),
            }),
    {
        ProtocolError { request_id, error: ErrorBody::new(code, message) }
    }

    /// The request is at fault.
    pub fn invalid(request_id: Option<String>, message: &str) -> (r: Self)
        ensures
            r@ == invalid(device::text_view(request_id), message@),
    {
        ProtocolError::new(request_id, ErrorCode::InvalidArgument, message)
    }
}

/// The answer to a request that could not be understood. Where it could not even be read, its
/// identifier is empty.
pub open spec fn refusal(error: ProtocolErrorView) -> ResponseView {
    ResponseView {
        version: PROTOCOL_VERSION@,
        request_id: match error.request_id {
            Some(id) => id,
            None => Seq::empty(),
        },
        ok: false,
        result: None,
        error: Some(error.error),
    }
}

/// The request is at fault.
pub open spec fn invalid(request_id: Option<Seq<char>>, message: Seq<char>) -> ProtocolErrorView {
    ProtocolErrorView { request_id, error: error_body(ErrorCode::InvalidArgument, message) }
}

/// The operation of an envelope, and its body as far as it could be read as such; where it could
/// not, the reason.
#[derive(Debug)]
pub enum EnvelopeBody {
    AddDevice(Result<AddDeviceRequest, String>),
    RemoveDevice(Result<RemoveDeviceRequest, String>),
    ListDevices(Result<ListDevicesRequest, String>),
    Health(Result<HealthRequest, String>),
}

/// A request as it arrives.
#[derive(Debug)]
pub struct RequestEnvelope {
    pub version: String,
    pub request_id: String,
    pub idempotency_key: Option<String>,
    pub body: EnvelopeBody,
}

impl EnvelopeBody {
    /// What the request asks for.
    pub open spec fn operation(self) -> Operation {
        match self {
            EnvelopeBody::AddDevice(_) => Operation::AddDevice,
            EnvelopeBody::RemoveDevice(_) => Operation::RemoveDevice,
            EnvelopeBody::ListDevices(_) => Operation::ListDevices,
            EnvelopeBody::Health(_) => Operation::Health,
        }
    }

    /// What the request asks for.
    pub fn to_operation(&self) -> (r: Operation)
        ensures
            r == self.operation(),
    {
        match self {
            EnvelopeBody::AddDevice(_) => Operation::AddDevice,
            EnvelopeBody::RemoveDevice(_) => Operation::RemoveDevice,
            EnvelopeBody::ListDevices(_) => Operation::ListDevices,
            EnvelopeBody::Health(_) => Operation::Health,
        }
    }
}

/// A text without the white space around it, where there is one and something is left of it.
pub open spec fn present(value: Option<String>) -> Option<Seq<char>> {
    match value {
        Some(s) => if text::trimmed(s@).len() == 0 {
            None
        } else {
            Some(text::trimmed(s@))
        },
        None => None,
    }
}

/// A text without the white space around it, where there is one and something is left of it.
pub fn trim_present(value: &Option<String>) -> (r: Option<String>)
    ensures
        device::text_view(r) == present(*value),
{
    match value {
        Some(s) => {
            let trimmed: String = text::trim(s.as_str());
            if trimmed.as_str().unicode_len() == 0 {
                None
            } else {
                Some(trimmed)
            }
        },
        None => None,
    }
}

/// What is wrong with the body of a request, if something is.
pub open spec fn body_error(body: EnvelopeBody) -> Option<Seq<char>> {
    match body {
        EnvelopeBody::AddDevice(Err(detail)) => Some("invalid AddDevice body: "@ + detail@),
        EnvelopeBody::RemoveDevice(Err(detail)) => Some("invalid RemoveDevice body: "@ + detail@),
        EnvelopeBody::ListDevices(Err(detail)) => Some("invalid ListDevices body: "@ + detail@),
        EnvelopeBody::Health(Err(detail)) => Some("invalid Health body: "@ + detail@),
        EnvelopeBody::AddDevice(Ok(request)) => if text::trimmed(request.volume_id@).len() == 0 {
            Some("AddDevice body.volume_id must be non-empty"@)
        } else {
            None
        },
        EnvelopeBody::RemoveDevice(Ok(request)) => if request.device_id is None && present(
            request.volume_id,
        ) is None {
            Some("RemoveDevice requires device_id or volume_id"@)
        } else {
            None
        },
        EnvelopeBody::ListDevices(Ok(_)) => None,
        EnvelopeBody::Health(Ok(_)) => None,
    }
}

/// Why an envelope is refused, if it is: its version, its identifier, the key that a mutating
/// operation needs, and its body are looked at in this order.
pub open spec fn envelope_error(envelope: RequestEnvelope) -> Option<ProtocolErrorView> {
    let request_id = Some(envelope.request_id@);
    if envelope.version@ != PROTOCOL_VERSION@ {
        Some(
            invalid(
                request_id,
                "unsupported protocol version '"@ + envelope.version@ + "' (expected '"@
                    + PROTOCOL_VERSION@ + "')"@,
            ),
        )
    } else if text::is_blank(envelope.request_id@) {
        Some(invalid(request_id, "request_id must be non-empty"@))
    } else if envelope.body.operation().mutating() && present(envelope.idempotency_key) is None {
        Some(
            invalid(
                request_id,
                "idempotency_key is required and non-empty for "@
                    + envelope.body.operation().name(),
            ),
        )
    } else {
        match body_error(envelope.body) {
            Some(message) => Some(invalid(request_id, message)),
            None => None,
        }
    }
}

/// Whether `body` is the body that the envelope holds.
pub open spec fn is_body(envelope: EnvelopeBody, body: RequestBody) -> bool {
    match (envelope, body) {
        (EnvelopeBody::AddDevice(Ok(a)), RequestBody::AddDevice(b)) => a == b,
        (EnvelopeBody::RemoveDevice(Ok(a)), RequestBody::RemoveDevice(b)) => a == b,
        (EnvelopeBody::ListDevices(Ok(a)), RequestBody::ListDevices(b)) => a == b,
        (EnvelopeBody::Health(Ok(a)), RequestBody::Health(b)) => a == b,
        _ => false,
    }
}

/// Whether `r` is what comes of a payload that was read as `payload`.
pub open spec fn is_decoded(
    payload: Result<RequestEnvelope, String>,
    r: Result<ControlRequest, ProtocolError>,
) -> bool {
    match payload {
        Err(detail) => r matches Err(e) && e@ == invalid(None, "invalid JSON payload: "@ + detail@),
        Ok(envelope) => match envelope_error(envelope) {
            Some(error) => r matches Err(e) && e@ == error,
            None => r matches Ok(request) && {
                &&& request.request_id@ == envelope.request_id@
                &&& device::text_view(request.idempotency_key) == present(envelope.idempotency_key)
                &&& is_body(envelope.body, request.body)
            },
        },
    }
}

fn check_body(request_id: &String, body: EnvelopeBody) -> (r: Result<RequestBody, ProtocolError>)
    ensures
        match body_error(body) {
            Some(message) => r matches Err(e) && e@ == invalid(Some(request_id@), message),
            None => r matches Ok(b) && is_body(body, b),
        },
{
    let message: String = match body {
        EnvelopeBody::AddDevice(parsed) => match parsed {
            Ok(request) => {
                let volume_id: String = text::trim(request.volume_id.as_str());
                if volume_id.as_str().unicode_len() > 0 {
                    return Ok(RequestBody::AddDevice(request));
                }
                "AddDevice body.volume_id must be non-empty".to_owned()
            },
            Err(detail) => text::cat2("invalid AddDevice body: ", detail.as_str()),
        },
        EnvelopeBody::RemoveDevice(parsed) => match parsed {
            Ok(request) => {
                let volume_id: Option<String> = trim_present(&request.volume_id);
                if request.device_id.is_some() || volume_id.is_some() {
                    return Ok(RequestBody::RemoveDevice(request));
                }
                "RemoveDevice requires device_id or volume_id".to_owned()
            },
            Err(detail) => text::cat2("invalid RemoveDevice body: ", detail.as_str()),
        },
        EnvelopeBody::ListDevices(parsed) => match parsed {
            Ok(request) => {
                return Ok(RequestBody::ListDevices(request));
            },
            Err(detail) => text::cat2("invalid ListDevices body: ", detail.as_str()),
        },
        EnvelopeBody::Health(parsed) => match parsed {
            Ok(request) => {
                return Ok(RequestBody::Health(request));
            },
            Err(detail) => text::cat2("invalid Health body: ", detail.as_str()),
        },
    };
    Err(ProtocolError::invalid(Some(request_id.clone()), message.as_str()))
}

/// Checks a request that was read from a payload.
pub fn decode_request(payload: Result<RequestEnvelope, String>) -> (r: Result<
    ControlRequest,
    ProtocolError,
>)
    ensures
        is_decoded(payload, r),
{
    let envelope: RequestEnvelope = match payload {
        Ok(envelope) => envelope,
        Err(detail) => {
            let message: String = text::cat2("invalid JSON payload: ", detail.as_str());
            return Err(ProtocolError::invalid(None, message.as_str()));
        },
    };
    if envelope.version != PROTOCOL_VERSION.to_owned() {
        let message: String = text::cat5(
            "unsupported protocol version '",
            envelope.version.as_str(),
            "' (expected '",
            PROTOCOL_VERSION,
            "')",
        );
        return Err(ProtocolError::invalid(Some(envelope.request_id), message.as_str()));
    }
    let request_id: String = envelope.request_id;
    if text::blank(request_id.as_str()) {
        return Err(ProtocolError::invalid(Some(request_id), "request_id must be non-empty"));
    }
    let idempotency_key: Option<String> = trim_present(&envelope.idempotency_key);
    let op: Operation = envelope.body.to_operation();
    if op.is_mutating() && idempotency_key.is_none() {
        let message: String = text::cat2(
            "idempotency_key is required and non-empty for ",
            op.to_name(),
        );
        return Err(ProtocolError::invalid(Some(request_id), message.as_str()));
    }
    match check_body(&request_id, envelope.body) {
        Ok(body) => Ok(ControlRequest { request_id, idempotency_key, body }),
        Err(e) => Err(e),
    }
}

/// A mutating request that was understood carries a key, and the key is not empty.
pub proof fn law_mutating_requests_carry_a_key(
    payload: Result<RequestEnvelope, String>,
    r: Result<ControlRequest, ProtocolError>,
)
    requires
        is_decoded(payload, r),
        r is Ok,
        r->Ok_0.body.operation().mutating(),
    ensures
        r->Ok_0.idempotency_key is Some,
        r->Ok_0.idempotency_key->0@.len() > 0,
{
}

/// A request that could be read keeps its identifier, as it was sent, whether it is understood or
/// not.
pub proof fn law_request_id_is_kept(
    envelope: RequestEnvelope,
    r: Result<ControlRequest, ProtocolError>,
)
    requires
        is_decoded(Ok(envelope), r),
    ensures
        match r {
            Ok(request) => request.request_id@ == envelope.request_id@,
            Err(e) => e@.request_id == Some(envelope.request_id@),
        },
{
}

} // verus!
