//! The envoy external-processing messages that the processing logic reads and
//! writes, held as plain values. The gRPC server in the application converts
//! between these and the generated protobuf types.

use vstd::prelude::*;
use crate::map::StringMap;

verus! {

/// One header: its name, its text value and its raw bytes.
pub struct HeaderValue {
    pub key: String,
    pub value: String,
    pub raw_value: Vec<u8>,
}

/// The headers of a request or a response, in the order envoy sent them.
pub struct HeaderMap {
    pub headers: Vec<HeaderValue>,
}

/// A headers message of the processing stream.
pub struct HttpHeaders {
    pub headers: Option<HeaderMap>,
    pub end_of_stream: bool,
}

/// A body chunk of the processing stream.
pub struct HttpBody {
    pub body: Vec<u8>,
    pub end_of_stream: bool,
}

/// A trailers message of the processing stream.
pub struct HttpTrailers {
    pub trailers: Option<HeaderMap>,
}

/// The part of the HTTP exchange a processing request carries.
pub enum Request {
    RequestHeaders(HttpHeaders),
    ResponseHeaders(HttpHeaders),
    RequestBody(HttpBody),
    ResponseBody(HttpBody),
    RequestTrailers(HttpTrailers),
    ResponseTrailers(HttpTrailers),
}

/// One message envoy sends to the external processor.
pub struct ProcessingRequest {
    pub request: Option<Request>,
    pub observability_mode: bool,
}

/// How a header is set when it is already present.
pub enum HeaderAppendAction {
    AppendIfExistsOrAdd,
    AddIfAbsent,
    OverwriteIfExistsOrAdd,
    OverwriteIfExists,
}

/// A header to set, with how to set it.
pub struct HeaderValueOption {
    pub header: Option<HeaderValue>,
    pub append: Option<bool>,
    pub append_action: HeaderAppendAction,
    pub keep_empty_value: bool,
}

/// Headers to set and headers to remove.
pub struct HeaderMutation {
    pub set_headers: Vec<HeaderValueOption>,
    pub remove_headers: Vec<String>,
}

/// The common part of a headers response; its other fields keep their
/// protobuf defaults.
pub struct CommonResponse {
    pub header_mutation: Option<HeaderMutation>,
}

/// The answer to a headers message.
pub struct HeadersResponse {
    pub response: Option<CommonResponse>,
}

/// The answer to a body message.
pub struct BodyResponse {
    pub response: Option<CommonResponse>,
}

/// The answer to a trailers message.
pub struct TrailersResponse {
    pub header_mutation: Option<HeaderMutation>,
}

/// A response envoy sends to the client at once, in place of the upstream's:
/// its HTTP status code, headers to set, body, gRPC status and details.
pub struct ImmediateResponse {
    pub status: Option<i32>,
    pub headers: Option<HeaderMutation>,
    pub body: Vec<u8>,
    pub grpc_status: Option<u32>,
    pub details: String,
}

/// The kind of answer a processing response carries: one for each kind of
/// message, or an immediate response.
pub enum Response {
    RequestHeaders(HeadersResponse),
    ResponseHeaders(HeadersResponse),
    RequestBody(BodyResponse),
    ResponseBody(BodyResponse),
    RequestTrailers(TrailersResponse),
    ResponseTrailers(TrailersResponse),
    ImmediateResponse(ImmediateResponse),
}

/// One message the external processor sends back to envoy; the dynamic
/// metadata, mode override and timeout override are left unset.
pub struct ProcessingResponse {
    pub response: Option<Response>,
}

/// How envoy sends headers or trailers to the processor.
pub enum HeaderSendMode {
    Default,
    Send,
    Skip,
}

/// The wire number of each header send mode.
pub open spec fn header_send_mode_number(m: HeaderSendMode) -> i32 {
    match m {
        HeaderSendMode::Default => 0,
        HeaderSendMode::Send => 1,
        HeaderSendMode::Skip => 2,
    }
}

impl HeaderSendMode {
    /// The mode with wire number `v`, if `v` is one.
    pub fn from_i32(v: i32) -> (r: Option<HeaderSendMode>)
        ensures
            match r {
                Some(m) => header_send_mode_number(m) == v,
                None => v < 0 || v > 2,
            },
    {
        if v == 0 {
            Some(HeaderSendMode::Default)
        } else if v == 1 {
            Some(HeaderSendMode::Send)
        } else if v == 2 {
            Some(HeaderSendMode::Skip)
        } else {
            None
        }
    }

    /// The wire number of the mode.
    pub fn as_i32(&self) -> (v: i32)
        ensures
            v == header_send_mode_number(*self),
    {
        match self {
            HeaderSendMode::Default => 0,
            HeaderSendMode::Send => 1,
            HeaderSendMode::Skip => 2,
        }
    }
}

/// How envoy sends bodies to the processor.
pub enum BodySendMode {
    NoBody,
    Streamed,
    Buffered,
    BufferedPartial,
}

/// The wire number of each body send mode.
pub open spec fn body_send_mode_number(m: BodySendMode) -> i32 {
    match m {
        BodySendMode::NoBody => 0,
        BodySendMode::Streamed => 1,
        BodySendMode::Buffered => 2,
        BodySendMode::BufferedPartial => 3,
    }
}

impl BodySendMode {
    /// The mode with wire number `v`, if `v` is one.
    pub fn from_i32(v: i32) -> (r: Option<BodySendMode>)
        ensures
            match r {
                Some(m) => body_send_mode_number(m) == v,
                None => v < 0 || v > 3,
            },
    {
        if v == 0 {
            Some(BodySendMode::NoBody)
        } else if v == 1 {
            Some(BodySendMode::Streamed)
        } else if v == 2 {
            Some(BodySendMode::Buffered)
        } else if v == 3 {
            Some(BodySendMode::BufferedPartial)
        } else {
            None
        }
    }

    /// The wire number of the mode.
    pub fn as_i32(&self) -> (v: i32)
        ensures
            v == body_send_mode_number(*self),
    {
        match self {
            BodySendMode::NoBody => 0,
            BodySendMode::Streamed => 1,
            BodySendMode::Buffered => 2,
            BodySendMode::BufferedPartial => 3,
        }
    }
}

/// The header mode for wire number `v`, the default mode for an unknown one
/// (as the generated protobuf accessors read enumeration fields).
pub open spec fn header_mode_or_default(v: i32) -> HeaderSendMode {
    if v == 1 {
        HeaderSendMode::Send
    } else if v == 2 {
        HeaderSendMode::Skip
    } else {
        HeaderSendMode::Default
    }
}

/// The body mode for wire number `v`; an unknown number reads as `NoBody`
/// (number 0, the protobuf `NONE`).
pub open spec fn body_mode_or_default(v: i32) -> BodySendMode {
    if v == 1 {
        BodySendMode::Streamed
    } else if v == 2 {
        BodySendMode::Buffered
    } else if v == 3 {
        BodySendMode::BufferedPartial
    } else {
        BodySendMode::NoBody
    }
}

/// The processing mode of the filter, its fields held as wire numbers.
pub struct ProcessingMode {
    pub request_header_mode: i32,
    pub response_header_mode: i32,
    pub request_body_mode: i32,
    pub response_body_mode: i32,
    pub request_trailer_mode: i32,
    pub response_trailer_mode: i32,
}

fn header_mode_of(v: i32) -> (m: HeaderSendMode)
    ensures
        m == header_mode_or_default(v),
{
    match HeaderSendMode::from_i32(v) {
        Some(m) => m,
        None => HeaderSendMode::Default,
    }
}

fn body_mode_of(v: i32) -> (m: BodySendMode)
    ensures
        m == body_mode_or_default(v),
{
    match BodySendMode::from_i32(v) {
        Some(m) => m,
        None => BodySendMode::NoBody,
    }
}

impl ProcessingMode {
    pub fn request_header_mode(&self) -> (m: HeaderSendMode)
        ensures
            m == header_mode_or_default(self.request_header_mode),
    {
        header_mode_of(self.request_header_mode)
    }

    pub fn response_header_mode(&self) -> (m: HeaderSendMode)
        ensures
            m == header_mode_or_default(self.response_header_mode),
    {
        header_mode_of(self.response_header_mode)
    }

    pub fn request_body_mode(&self) -> (m: BodySendMode)
        ensures
            m == body_mode_or_default(self.request_body_mode),
    {
        body_mode_of(self.request_body_mode)
    }

    pub fn response_body_mode(&self) -> (m: BodySendMode)
        ensures
            m == body_mode_or_default(self.response_body_mode),
    {
        body_mode_of(self.response_body_mode)
    }

    pub fn request_trailer_mode(&self) -> (m: HeaderSendMode)
        ensures
            m == header_mode_or_default(self.request_trailer_mode),
    {
        header_mode_of(self.request_trailer_mode)
    }

    pub fn response_trailer_mode(&self) -> (m: HeaderSendMode)
        ensures
            m == header_mode_or_default(self.response_trailer_mode),
    {
        header_mode_of(self.response_trailer_mode)
    }
}

/// Parameters of an xDS resource locator context.
pub struct ContextParams {
    pub params: StringMap<String>,
}

} // verus!
