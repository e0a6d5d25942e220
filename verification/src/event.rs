//! The event the processor records for one HTTP exchange.

use vstd::prelude::*;
use crate::external::{base64_encode, base64_spec, is_json, parses_as_json};
use crate::map::StringMap;
use crate::text::{from_utf8_lossy, str_eq, utf8_lossy};

verus! {

/// A captured body, as the JSON value it is logged as: nothing, the JSON
/// document the bytes hold, or a JSON string.
pub enum BodyValue {
    Null,
    Json(Vec<u8>),
    Text(String),
}

/// The model of a captured body.
pub enum BodyModel {
    Null,
    Json(Seq<u8>),
    Text(Seq<char>),
}

impl View for BodyValue {
    type V = BodyModel;

    open spec fn view(&self) -> BodyModel {
        match self {
            BodyValue::Null => BodyModel::Null,
            BodyValue::Json(b) => BodyModel::Json(b@),
            BodyValue::Text(s) => BodyModel::Text(s@),
        }
    }
}

impl BodyValue {
    /// A copy of the body.
    pub fn duplicate(&self) -> (r: Self)
        ensures
            r@ == self@,
    {
        match self {
            BodyValue::Null => BodyValue::Null,
            BodyValue::Json(b) => {
                let c = b.clone();
                assert(c@ =~= b@);
                BodyValue::Json(c)
            },
            BodyValue::Text(s) => BodyValue::Text(s.clone()),
        }
    }
}

/// The text of bytes read as UTF-8, invalid sequences replaced as
/// `String::from_utf8_lossy` does.
pub open spec fn lossy_text(bytes: Seq<u8>) -> Seq<char> {
    if vstd::utf8::valid_utf8(bytes) {
        vstd::utf8::decode_utf8(bytes)
    } else {
        utf8_lossy(bytes)
    }
}

/// How a captured body is logged: nothing for an empty body; for a body
/// declared `application/json`, the JSON document when the bytes hold one and
/// their base64 text otherwise; for any other body, its text.
pub open spec fn body_model(body: Seq<u8>, content_type: Option<Seq<char>>) -> BodyModel {
    if body.len() == 0 {
        BodyModel::Null
    } else if content_type == Some("application/json"@) {
        if is_json(body) {
            BodyModel::Json(body)
        } else {
            BodyModel::Text(base64_spec(body))
        }
    } else {
        BodyModel::Text(lossy_text(body))
    }
}

/// Turns a captured body into the value it is logged as.
pub fn body_bytes_to_value(body: Vec<u8>, content_type: Option<&String>) -> (r: BodyValue)
    ensures
        r@ == body_model(
            body@,
            match content_type {
                Some(c) => Some(c@),
                None => None,
            },
        ),
{
    if body.len() == 0 {
        return BodyValue::Null;
    }
    if let Some(content_type) = content_type {
        if str_eq(content_type.as_str(), "application/json") {
            if parses_as_json(body.as_slice()) {
                return BodyValue::Json(body);
            } else {
                return BodyValue::Text(base64_encode(body.as_slice()));
            }
        }
    }
    BodyValue::Text(from_utf8_lossy(body.as_slice()))
}

/// What was seen of an HTTP request.
pub struct RequestInfo {
    pub time: String,
    pub verb: String,
    pub uri: String,
    pub headers: StringMap<String>,
    pub transfer_encoding: Option<String>,
    pub api_version: Option<String>,
    pub ip_address: Option<String>,
    pub body: BodyValue,
}

/// The model of a request.
pub struct RequestModel {
    pub time: Seq<char>,
    pub verb: Seq<char>,
    pub uri: Seq<char>,
    pub headers: Seq<(Seq<char>, Seq<char>)>,
    pub transfer_encoding: Option<Seq<char>>,
    pub api_version: Option<Seq<char>>,
    pub ip_address: Option<Seq<char>>,
    pub body: BodyModel,
}

impl View for RequestInfo {
    type V = RequestModel;

    open spec fn view(&self) -> RequestModel {
        RequestModel {
            time: self.time@,
            verb: self.verb@,
            uri: self.uri@,
            headers: self.headers@,
            transfer_encoding: self.transfer_encoding.deep_view(),
            api_version: self.api_version.deep_view(),
            ip_address: self.ip_address.deep_view(),
            body: self.body@,
        }
    }
}

/// The model of an empty request.
pub open spec fn empty_request() -> RequestModel {
    RequestModel {
        time: Seq::empty(),
        verb: Seq::empty(),
        uri: Seq::empty(),
        headers: Seq::empty(),
        transfer_encoding: None,
        api_version: None,
        ip_address: None,
        body: BodyModel::Null,
    }
}

/// A copy of an optional string.
pub fn duplicate_opt(o: &Option<String>) -> (r: Option<String>)
    ensures
        r.deep_view() == o.deep_view(),
{
    match o {
        Some(s) => Some(s.clone()),
        None => None,
    }
}

impl RequestInfo {
    /// An empty request, as `RequestInfo::default()` builds it.
    pub fn new() -> (r: Self)
        ensures
            r@ == empty_request(),
    {
        RequestInfo {
            time: String::new(),
            verb: String::new(),
            uri: String::new(),
            headers: StringMap::new(),
            transfer_encoding: None,
            api_version: None,
            ip_address: None,
            body: BodyValue::Null,
        }
    }

    /// A copy of the request.
    pub fn duplicate(&self) -> (r: Self)
        ensures
            r@ == self@,
    {
        RequestInfo {
            time: self.time.clone(),
            verb: self.verb.clone(),
            uri: self.uri.clone(),
            headers: self.headers.duplicate(),
            transfer_encoding: duplicate_opt(&self.transfer_encoding),
            api_version: duplicate_opt(&self.api_version),
            ip_address: duplicate_opt(&self.ip_address),
            body: self.body.duplicate(),
        }
    }
}

/// What was seen of an HTTP response.
pub struct ResponseInfo {
    pub time: String,
    pub status: usize,
    pub headers: StringMap<String>,
    pub ip_address: Option<String>,
    pub body: BodyValue,
}

/// The model of a response.
pub struct ResponseModel {
    pub time: Seq<char>,
    pub status: usize,
    pub headers: Seq<(Seq<char>, Seq<char>)>,
    pub ip_address: Option<Seq<char>>,
    pub body: BodyModel,
}

impl View for ResponseInfo {
    type V = ResponseModel;

    open spec fn view(&self) -> ResponseModel {
        ResponseModel {
            time: self.time@,
            status: self.status,
            headers: self.headers@,
            ip_address: self.ip_address.deep_view(),
            body: self.body@,
        }
    }
}

impl ResponseInfo {
    /// A copy of the response.
    pub fn duplicate(&self) -> (r: Self)
        ensures
            r@ == self@,
    {
        ResponseInfo {
            time: self.time.clone(),
            status: self.status,
            headers: self.headers.duplicate(),
            ip_address: duplicate_opt(&self.ip_address),
            body: self.body.duplicate(),
        }
    }
}

/// One recorded exchange: the request, the response once it is known, the
/// identified user and company, and the id that pairs the two halves.
pub struct Event {
    pub request: RequestInfo,
    pub response: Option<ResponseInfo>,
    pub user_id: Option<String>,
    pub company_id: Option<String>,
    pub metadata: BodyValue,
    pub direction: String,
    pub session_token: Option<String>,
    pub blocked_by: Option<String>,
    pub moesif_gloo_id: String,
}

/// The model of an event.
pub struct EventModel {
    pub request: RequestModel,
    pub response: Option<ResponseModel>,
    pub user_id: Option<Seq<char>>,
    pub company_id: Option<Seq<char>>,
    pub metadata: BodyModel,
    pub direction: Seq<char>,
    pub session_token: Option<Seq<char>>,
    pub blocked_by: Option<Seq<char>>,
    pub moesif_gloo_id: Seq<char>,
}

/// The model of an optional response.
pub open spec fn response_model(r: Option<ResponseInfo>) -> Option<ResponseModel> {
    match r {
        Some(x) => Some(x@),
        None => None,
    }
}

impl View for Event {
    type V = EventModel;

    open spec fn view(&self) -> EventModel {
        EventModel {
            request: self.request@,
            response: response_model(self.response),
            user_id: self.user_id.deep_view(),
            company_id: self.company_id.deep_view(),
            metadata: self.metadata@,
            direction: self.direction@,
            session_token: self.session_token.deep_view(),
            blocked_by: self.blocked_by.deep_view(),
            moesif_gloo_id: self.moesif_gloo_id@,
        }
    }
}

/// The model of an empty event.
pub open spec fn empty_event() -> EventModel {
    EventModel {
        request: empty_request(),
        response: None,
        user_id: None,
        company_id: None,
        metadata: BodyModel::Null,
        direction: Seq::empty(),
        session_token: None,
        blocked_by: None,
        moesif_gloo_id: Seq::empty(),
    }
}

impl Event {
    /// An empty event, as `Event::default()` builds it.
    pub fn new() -> (e: Self)
        ensures
            e@ == empty_event(),
    {
        Event {
            request: RequestInfo::new(),
            response: None,
            user_id: None,
            company_id: None,
            metadata: BodyValue::Null,
            direction: String::new(),
            session_token: None,
            blocked_by: None,
            moesif_gloo_id: String::new(),
        }
    }

    /// A copy of the event.
    pub fn duplicate(&self) -> (r: Self)
        ensures
            r@ == self@,
    {
        let response = match &self.response {
            Some(x) => Some(x.duplicate()),
            None => None,
        };
        Event {
            request: self.request.duplicate(),
            response,
            user_id: duplicate_opt(&self.user_id),
            company_id: duplicate_opt(&self.company_id),
            metadata: self.metadata.duplicate(),
            direction: self.direction.clone(),
            session_token: duplicate_opt(&self.session_token),
            blocked_by: duplicate_opt(&self.blocked_by),
            moesif_gloo_id: self.moesif_gloo_id.clone(),
        }
    }
}

} // verus!
