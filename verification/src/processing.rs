//! What the external processor does with each message of a processing
//! stream: read the request headers into an event and keep it until its
//! response, pair response headers with the waiting request, and answer
//! envoy with the headers to add.

use vstd::prelude::*;
use crate::config::Config;
use crate::event::{
    empty_event, empty_request, BodyModel, BodyValue, Event, EventModel, RequestInfo, RequestModel, ResponseInfo,
    ResponseModel,
};
use crate::external::{is_v4_uuid_text, new_uuid_v4, now_rfc3339, rfc3339_instant};
use crate::headers::{
    client_ip_spec, extract_status_and_id, get_client_ip, get_named, headers_model,
    lemma_named_header_insert_other, message_header_map, message_value, named_header,
};
use crate::map::{drop_prefixed, insert_spec, lookup, remove_spec, StringMap};
use crate::proto::{
    BodyResponse, CommonResponse, HeaderAppendAction, HeaderMutation, HeaderValue, HeaderValueOption,
    HeadersResponse, TrailersResponse,
    HttpHeaders, ProcessingRequest, ProcessingResponse, Request, Response,
};
use crate::root_context::{completed_event, EventRootContext};
use crate::text::{eq_ignore_ascii_case_spec, parse_usize, parse_usize_spec};

verus! {

/// The header that carries the id pairing a request with its response.
pub open spec fn gloo_id_header() -> Seq<char> {
    "X-Moesif-Gloo-ID"@
}

/// The value of header `name`, or `default` when there is none.
pub open spec fn header_or(
    headers: Seq<(Seq<char>, Seq<char>)>,
    name: Seq<char>,
    default: Seq<char>,
) -> Seq<char> {
    match lookup(headers, name) {
        Some(v) => v,
        None => default,
    }
}

/// The value of the request header named `name` (see `named_header`: an
/// exact match first, else a match up to ASCII case), or `default` when
/// there is none.
pub open spec fn identity_value(
    headers: Seq<(Seq<char>, Seq<char>)>,
    name: Seq<char>,
    default: Seq<char>,
) -> Seq<char> {
    match named_header(headers, name) {
        Some(v) => v,
        None => default,
    }
}

/// Identifying the user by the configured header `name`: the event's user
/// is that header's value (see `identity_value`; `default_user_id` when the
/// request lacks it),
/// and the header is set to it in the request and in the headers envoy is
/// asked to add. Nothing changes when no header is configured.
pub open spec fn identify_user(
    e: EventModel,
    added: Seq<(Seq<char>, Seq<char>)>,
    name: Option<Seq<char>>,
) -> (EventModel, Seq<(Seq<char>, Seq<char>)>) {
    match name {
        None => (e, added),
        Some(h) => {
            let u = identity_value(e.request.headers, h, "default_user_id"@);
            (
                EventModel {
                    user_id: Some(u),
                    request: RequestModel { headers: insert_spec(e.request.headers, h, u), ..e.request },
                    ..e
                },
                insert_spec(added, h, u),
            )
        },
    }
}

/// Identifying the company by the configured header `name`, as
/// `identify_user` does for the user, with `default_company_id`.
pub open spec fn identify_company(
    e: EventModel,
    added: Seq<(Seq<char>, Seq<char>)>,
    name: Option<Seq<char>>,
) -> (EventModel, Seq<(Seq<char>, Seq<char>)>) {
    match name {
        None => (e, added),
        Some(h) => {
            let c = identity_value(e.request.headers, h, "default_company_id"@);
            (
                EventModel {
                    company_id: Some(c),
                    request: RequestModel { headers: insert_spec(e.request.headers, h, c), ..e.request },
                    ..e
                },
                insert_spec(added, h, c),
            )
        },
    }
}

/// The user, then the company, identified.
pub open spec fn env_headers_added(
    e: EventModel,
    added: Seq<(Seq<char>, Seq<char>)>,
    user_header: Option<Seq<char>>,
    company_header: Option<Seq<char>>,
) -> (EventModel, Seq<(Seq<char>, Seq<char>)>) {
    let u = identify_user(e, added, user_header);
    identify_company(u.0, u.1, company_header)
}

/// Stores a fresh random pairing id (a version-4 UUID) under
/// `X-Moesif-Gloo-ID` in `headers` and returns it; an id already there is
/// replaced.
pub fn generate_moesif_gloo_id(headers: &mut StringMap<String>) -> (id: String)
    ensures
        is_v4_uuid_text(id@),
        final(headers)@ == insert_spec(old(headers)@, gloo_id_header(), id@),
{
    let id = new_uuid_v4();
    headers.insert("X-Moesif-Gloo-ID".to_string(), id.clone());
    id
}

/// Identifies the user and the company of an event by the headers the
/// configuration names (see `identify_user` and `identify_company`).
pub fn add_env_headers_to_event(
    config: &Config,
    event: &mut Event,
    response_headers: &mut StringMap<String>,
)
    ensures
        (final(event)@, final(response_headers)@) == env_headers_added(
            old(event)@,
            old(response_headers)@,
            config.env.user_id_header.deep_view(),
            config.env.company_id_header.deep_view(),
        ),
{
    if let Some(h) = &config.env.user_id_header {
        let u = match get_named(&event.request.headers, h.as_str()) {
            Some(v) => v,
            None => "default_user_id".to_string(),
        };
        event.user_id = Some(u.clone());
        event.request.headers.insert(h.clone(), u.clone());
        response_headers.insert(h.clone(), u);
    }
    if let Some(h) = &config.env.company_id_header {
        let c = match get_named(&event.request.headers, h.as_str()) {
            Some(v) => v,
            None => "default_company_id".to_string(),
        };
        event.company_id = Some(c.clone());
        event.request.headers.insert(h.clone(), c.clone());
        response_headers.insert(h.clone(), c);
    }
}

/// The request as read from its lower-cased header map `all`: its `:path`
/// (empty when missing) as the URI and its `:method` (`GET` when missing) as
/// the verb, the headers without the pseudo-headers (names starting with
/// `:`), and from those the client address, `x-api-version` and
/// `transfer-encoding`. Time and body are kept.
pub open spec fn request_from_headers(r: RequestModel, all: Seq<(Seq<char>, Seq<char>)>) -> RequestModel {
    let kept = drop_prefixed(all, ':');
    RequestModel {
        uri: header_or(all, ":path"@, Seq::empty()),
        verb: header_or(all, ":method"@, "GET"@),
        headers: kept,
        ip_address: client_ip_spec(kept),
        api_version: lookup(kept, "x-api-version"@),
        transfer_encoding: lookup(kept, "transfer-encoding"@),
        ..r
    }
}

/// The request as read from a request-headers message (see
/// `request_from_headers`).
pub open spec fn request_read(r: RequestModel, msg: HttpHeaders) -> RequestModel {
    request_from_headers(r, headers_model(msg.headers))
}

/// Reads the request fields from the lower-cased header map `all` (see
/// `request_from_headers`).
pub fn fill_request(request: &mut RequestInfo, all: StringMap<String>)
    ensures
        final(request)@ == request_from_headers(old(request)@, all@),
{
    let uri = match all.get(":path") {
        Some(v) => v.clone(),
        None => String::new(),
    };
    let verb = match all.get(":method") {
        Some(v) => v.clone(),
        None => "GET".to_string(),
    };
    let mut headers = all;
    headers.retain_unprefixed(':');
    let ip_address = get_client_ip(&headers);
    let api_version = match headers.get("x-api-version") {
        Some(v) => Some(v.clone()),
        None => None,
    };
    let transfer_encoding = match headers.get("transfer-encoding") {
        Some(v) => Some(v.clone()),
        None => None,
    };
    request.uri = uri;
    request.verb = verb;
    request.headers = headers;
    request.ip_address = ip_address;
    request.api_version = api_version;
    request.transfer_encoding = transfer_encoding;
}

/// Reads the request of a request-headers message into the event (see
/// `request_read`) and marks it incoming.
pub fn read_request_headers(event: &mut Event, headers_msg: &HttpHeaders)
    ensures
        final(event)@ == (EventModel {
            direction: "Incoming"@,
            request: request_read(old(event)@.request, *headers_msg),
            ..old(event)@
        }),
{
    event.direction = "Incoming".to_string();
    let all = message_header_map(headers_msg);
    fill_request(&mut event.request, all);
}

/// The event and the headers to add once a request-headers message is
/// handled with the pairing id `id`: the request read, the id stored in the
/// request headers, the event and the headers to add, then the user and
/// company identified.
pub open spec fn request_headers_outcome(
    e: EventModel,
    msg: HttpHeaders,
    added: Seq<(Seq<char>, Seq<char>)>,
    id: Seq<char>,
    user_header: Option<Seq<char>>,
    company_header: Option<Seq<char>>,
) -> (EventModel, Seq<(Seq<char>, Seq<char>)>) {
    let read = request_read(e.request, msg);
    let tagged = EventModel {
        direction: "Incoming"@,
        request: RequestModel { headers: insert_spec(read.headers, gloo_id_header(), id), ..read },
        moesif_gloo_id: id,
        ..e
    };
    env_headers_added(tagged, insert_spec(added, gloo_id_header(), id), user_header, company_header)
}

/// Handles a request-headers message: reads the request into the event,
/// pairs it with a fresh random id (a version-4 UUID) sent back to envoy
/// under `X-Moesif-Gloo-ID`, identifies user and company, and keeps a copy
/// of the event until its response arrives.
pub fn process_request_headers(
    ctx: &mut EventRootContext,
    config: &Config,
    event: &mut Event,
    headers_msg: &HttpHeaders,
    response_headers: &mut StringMap<String>,
)
    ensures
        is_v4_uuid_text(final(event)@.moesif_gloo_id),
        (final(event)@, final(response_headers)@) == request_headers_outcome(
            old(event)@,
            *headers_msg,
            old(response_headers)@,
            final(event)@.moesif_gloo_id,
            config.env.user_id_header.deep_view(),
            config.env.company_id_header.deep_view(),
        ),
        final(ctx).noresponse_yet_events_buffer@ == insert_spec(
            old(ctx).noresponse_yet_events_buffer@,
            final(event)@.moesif_gloo_id,
            final(event)@,
        ),
        final(ctx).event_byte_buffer == old(ctx).event_byte_buffer,
        final(ctx).config == old(ctx).config,
        final(ctx).is_start == old(ctx).is_start,
{
    read_request_headers(event, headers_msg);
    let moesif_gloo_id = generate_moesif_gloo_id(&mut event.request.headers);
    event.moesif_gloo_id = moesif_gloo_id.clone();
    response_headers.insert("X-Moesif-Gloo-ID".to_string(), moesif_gloo_id);
    add_env_headers_to_event(config, event, response_headers);
    ctx.store_event(event.moesif_gloo_id.clone(), event.duplicate());
}

/// The status of a response-headers message: the value of its header named
/// exactly `:status` (`0` when missing) read as a number, 0 when it is not
/// one.
pub open spec fn status_of(msg: HttpHeaders) -> usize {
    let text = match message_value(msg, ":status"@, false) {
        Some(v) => v,
        None => "0"@,
    };
    match parse_usize_spec(text) {
        Some(n) => n,
        None => 0,
    }
}

/// The pairing id a response-headers message carries, the header name
/// compared up to ASCII case (empty when none).
pub open spec fn gloo_id_of(msg: HttpHeaders) -> Seq<char> {
    match message_value(msg, gloo_id_header(), true) {
        Some(v) => v,
        None => Seq::empty(),
    }
}

/// The response read from a response-headers message at `time`: its status,
/// its lower-cased header map, no address and no body.
pub open spec fn response_read(msg: HttpHeaders, time: Seq<char>) -> ResponseModel {
    ResponseModel {
        time,
        status: status_of(msg),
        headers: headers_model(msg.headers),
        ip_address: None,
        body: BodyModel::Null,
    }
}

/// Handles a response-headers message seen at `time`. Without a pairing id
/// nothing happens and `None` is returned. Otherwise the response is paired
/// with the request event waiting under that id (see `completed_event`),
/// which stops waiting; the flag tells whether one waited, and the completed
/// event is returned to be serialized and added to the send buffer.
pub fn record_response_headers(
    ctx: &mut EventRootContext,
    response_headers_msg: &HttpHeaders,
    time: String,
) -> (r: Option<(bool, Event)>)
    ensures
        ({
            let id = gloo_id_of(*response_headers_msg);
            let pending = old(ctx).noresponse_yet_events_buffer@;
            if id.len() == 0 {
                &&& r is None
                &&& final(ctx).noresponse_yet_events_buffer == old(ctx).noresponse_yet_events_buffer
            } else {
                &&& r is Some
                &&& (r->0).0 == (lookup(pending, id) is Some)
                &&& (r->0).1@ == completed_event(pending, id, response_read(*response_headers_msg, time@))
                &&& final(ctx).noresponse_yet_events_buffer@ == remove_spec(pending, id)
            }
        }),
        final(ctx).event_byte_buffer == old(ctx).event_byte_buffer,
        final(ctx).config == old(ctx).config,
        final(ctx).is_start == old(ctx).is_start,
{
    let (status_str, moesif_gloo_id) = extract_status_and_id(response_headers_msg);
    if moesif_gloo_id.as_str().is_empty() {
        return None;
    }
    let status = match parse_usize(status_str.as_str()) {
        Some(n) => n,
        None => 0,
    };
    let response = ResponseInfo {
        time,
        status,
        headers: message_header_map(response_headers_msg),
        ip_address: None,
        body: BodyValue::Null,
    };
    Some(ctx.match_and_store_response(Some(moesif_gloo_id), response))
}

/// Handles a response-headers message as `record_response_headers` does,
/// with the clock's current time (RFC 3339) as the response time. The
/// clock's reading is not known, so only that some time was used is stated.
pub fn process_response_headers(ctx: &mut EventRootContext, response_headers_msg: &HttpHeaders) -> (r:
    Option<(bool, Event)>)
    ensures
        ({
            let id = gloo_id_of(*response_headers_msg);
            let pending = old(ctx).noresponse_yet_events_buffer@;
            if id.len() == 0 {
                &&& r is None
                &&& final(ctx).noresponse_yet_events_buffer == old(ctx).noresponse_yet_events_buffer
            } else {
                &&& r is Some
                &&& (r->0).0 == (lookup(pending, id) is Some)
                &&& exists|t: Seq<char>|
                    #![trigger response_read(*response_headers_msg, t)]
                    rfc3339_instant(t) is Some && (r->0).1@ == completed_event(
                        pending,
                        id,
                        response_read(*response_headers_msg, t),
                    )
                &&& final(ctx).noresponse_yet_events_buffer@ == remove_spec(pending, id)
            }
        }),
        final(ctx).event_byte_buffer == old(ctx).event_byte_buffer,
        final(ctx).config == old(ctx).config,
        final(ctx).is_start == old(ctx).is_start,
{
    let time = now_rfc3339();
    record_response_headers(ctx, response_headers_msg, time)
}

/// Whether a header option asks envoy to add the header `h` (name and text
/// value, no raw bytes) only where it is absent, keeping it when empty.
pub open spec fn adds_header(o: HeaderValueOption, h: (Seq<char>, Seq<char>)) -> bool {
    &&& o.header matches Some(v) && v.key@ == h.0 && v.value@ == h.1 && v.raw_value@.len() == 0
    &&& o.append == Some(false)
    &&& o.append_action == HeaderAppendAction::AddIfAbsent
    &&& o.keep_empty_value
}

/// Whether a processing response answers request headers by asking envoy to
/// add the headers `hs`, one option each and in order, and to remove none;
/// with no change at all when `hs` is empty.
pub open spec fn answers_with_headers(r: ProcessingResponse, hs: Seq<(Seq<char>, Seq<char>)>) -> bool {
    match r.response {
        Some(Response::RequestHeaders(hr)) => if hs.len() == 0 {
            hr.response is None
        } else {
            match hr.response {
                Some(c) => match c.header_mutation {
                    Some(m) => {
                        &&& m.remove_headers@.len() == 0
                        &&& m.set_headers@.len() == hs.len()
                        &&& forall|i: int|
                            0 <= i < hs.len() ==> adds_header(#[trigger] m.set_headers@[i], hs[i])
                    },
                    None => false,
                },
                None => false,
            }
        },
        _ => false,
    }
}

/// The answer that lets a message pass unchanged, of the message's own
/// kind: a headers, body or trailers answer with nothing in it, for the
/// request or the response side as the message is. A message of no kind is
/// answered as request headers.
pub open spec fn pass_through_answer(request: Option<Request>) -> ProcessingResponse {
    ProcessingResponse {
        response: Some(
            match request {
                Some(Request::ResponseHeaders(_)) => Response::ResponseHeaders(
                    HeadersResponse { response: None },
                ),
                Some(Request::RequestBody(_)) => Response::RequestBody(BodyResponse { response: None }),
                Some(Request::ResponseBody(_)) => Response::ResponseBody(BodyResponse { response: None }),
                Some(Request::RequestTrailers(_)) => Response::RequestTrailers(
                    TrailersResponse { header_mutation: None },
                ),
                Some(Request::ResponseTrailers(_)) => Response::ResponseTrailers(
                    TrailersResponse { header_mutation: None },
                ),
                _ => Response::RequestHeaders(HeadersResponse { response: None }),
            },
        ),
    }
}

/// The answer that lets `msg` pass unchanged, of its own kind (see
/// `pass_through_answer`).
pub fn continue_response(msg: &ProcessingRequest) -> (r: ProcessingResponse)
    ensures
        r == pass_through_answer(msg.request),
{
    let response = match &msg.request {
        Some(Request::ResponseHeaders(_)) => Response::ResponseHeaders(HeadersResponse { response: None }),
        Some(Request::RequestBody(_)) => Response::RequestBody(BodyResponse { response: None }),
        Some(Request::ResponseBody(_)) => Response::ResponseBody(BodyResponse { response: None }),
        Some(Request::RequestTrailers(_)) => Response::RequestTrailers(
            TrailersResponse { header_mutation: None },
        ),
        Some(Request::ResponseTrailers(_)) => Response::ResponseTrailers(
            TrailersResponse { header_mutation: None },
        ),
        _ => Response::RequestHeaders(HeadersResponse { response: None }),
    };
    ProcessingResponse { response: Some(response) }
}

/// The answer to request headers that changes nothing.
pub fn simplified_response() -> (r: ProcessingResponse)
    ensures
        answers_with_headers(r, Seq::empty()),
{
    ProcessingResponse {
        response: Some(Response::RequestHeaders(HeadersResponse { response: None })),
    }
}

/// The answer to request headers that asks envoy to add `headers` where
/// absent; with no header, the answer that changes nothing.
pub fn response_with_headers(headers: StringMap<String>) -> (r: ProcessingResponse)
    ensures
        answers_with_headers(r, headers@),
{
    if headers.is_empty() {
        return simplified_response();
    }
    let mut header_options: Vec<HeaderValueOption> = Vec::new();
    let mut i: usize = 0;
    while i < headers.len()
        invariant
            i <= headers@.len(),
            header_options@.len() == i,
            forall|j: int| 0 <= j < i ==> adds_header(#[trigger] header_options@[j], headers@[j]),
        decreases headers@.len() - i,
    {
        let envoy_header = HeaderValue {
            key: headers.key_at(i).clone(),
            value: headers.value_at(i).clone(),
            raw_value: Vec::new(),
        };
        header_options.push(
            HeaderValueOption {
                header: Some(envoy_header),
                append: Some(false),
                append_action: HeaderAppendAction::AddIfAbsent,
                keep_empty_value: true,
            },
        );
        i = i + 1;
    }
    let header_mutation = HeaderMutation { set_headers: header_options, remove_headers: Vec::new() };
    let common_response = CommonResponse { header_mutation: Some(header_mutation) };
    ProcessingResponse {
        response: Some(
            Response::RequestHeaders(HeadersResponse { response: Some(common_response) }),
        ),
    }
}

/// A fresh event whose request was seen at `time`.
pub open spec fn event_at(time: Seq<char>) -> EventModel {
    EventModel { request: RequestModel { time, ..empty_request() }, ..empty_event() }
}

/// What handling one message of the processing stream does, given the
/// request time, the pairing id and the response time it used: the waiting
/// events before (`pending`) and after (`pending_after`) and the answer and
/// completed event returned (`r`).
/// - Request headers: the id is a version-4 UUID, the request time is RFC
///   3339 text, a fresh event read from them is kept under it, and envoy is asked to add the headers the
///   reading produced.
/// - Response headers: envoy is answered on the response-headers side with
///   no change, and the response is paired as `record_response_headers`
///   describes, its time RFC 3339 text.
/// - Anything else: nothing happens, and the answer, of the message's own
///   kind, changes nothing (see `pass_through_answer`).
pub open spec fn message_handled(
    pending: Seq<(Seq<char>, EventModel)>,
    pending_after: Seq<(Seq<char>, EventModel)>,
    user_header: Option<Seq<char>>,
    company_header: Option<Seq<char>>,
    msg: ProcessingRequest,
    r: (ProcessingResponse, Option<(bool, Event)>),
    request_time: Seq<char>,
    id: Seq<char>,
    response_time: Seq<char>,
) -> bool {
    match msg.request {
        Some(Request::RequestHeaders(h)) => {
            let out = request_headers_outcome(
                event_at(request_time),
                h,
                Seq::empty(),
                id,
                user_header,
                company_header,
            );
            &&& is_v4_uuid_text(id)
            &&& rfc3339_instant(request_time) is Some
            &&& pending_after == insert_spec(pending, id, out.0)
            &&& answers_with_headers(r.0, out.1)
            &&& r.1 is None
        },
        Some(Request::ResponseHeaders(h)) => {
            let gid = gloo_id_of(h);
            &&& r.0 == pass_through_answer(msg.request)
            &&& if gid.len() == 0 {
                &&& r.1 is None
                &&& pending_after == pending
            } else {
                &&& r.1 is Some
                &&& rfc3339_instant(response_time) is Some
                &&& (r.1->0).0 == (lookup(pending, gid) is Some)
                &&& (r.1->0).1@ == completed_event(pending, gid, response_read(h, response_time))
                &&& pending_after == remove_spec(pending, gid)
            }
        },
        _ => {
            &&& r.0 == pass_through_answer(msg.request)
            &&& r.1 is None
            &&& pending_after == pending
        },
    }
}

/// Handles one message of the processing stream: a fresh event stamped with
/// the clock's current time, the request or response headers it carries
/// processed, and the answer to send envoy. A completed event that comes
/// back is to be serialized and added to the send buffer. The clock's
/// readings and the random pairing id are not known: only that some were
/// used, is stated.
pub fn handle_message(ctx: &mut EventRootContext, config: &Config, msg: &ProcessingRequest) -> (r: (
    ProcessingResponse,
    Option<(bool, Event)>,
))
    ensures
        exists|request_time: Seq<char>, id: Seq<char>, response_time: Seq<char>|
            #![trigger message_handled(
                old(ctx).noresponse_yet_events_buffer@,
                final(ctx).noresponse_yet_events_buffer@,
                config.env.user_id_header.deep_view(),
                config.env.company_id_header.deep_view(),
                *msg,
                r,
                request_time,
                id,
                response_time,
            )]
            message_handled(
                old(ctx).noresponse_yet_events_buffer@,
                final(ctx).noresponse_yet_events_buffer@,
                config.env.user_id_header.deep_view(),
                config.env.company_id_header.deep_view(),
                *msg,
                r,
                request_time,
                id,
                response_time,
            ),
        final(ctx).event_byte_buffer == old(ctx).event_byte_buffer,
        final(ctx).config == old(ctx).config,
        final(ctx).is_start == old(ctx).is_start,
{
    let ghost pending = ctx.noresponse_yet_events_buffer@;
    let ghost user_header = config.env.user_id_header.deep_view();
    let ghost company_header = config.env.company_id_header.deep_view();
    let mut event = Event::new();
    event.request.time = now_rfc3339();
    let ghost request_time = event.request.time@;
    assert(event@ == event_at(request_time));
    let mut response_headers: StringMap<String> = StringMap::new();
    let mut completed: Option<(bool, Event)> = None;
    match &msg.request {
        Some(Request::RequestHeaders(headers_msg)) => {
            process_request_headers(ctx, config, &mut event, headers_msg, &mut response_headers);
        },
        Some(Request::ResponseHeaders(response_headers_msg)) => {
            completed = process_response_headers(ctx, response_headers_msg);
        },
        _ => {},
    }
    let answer = match &msg.request {
        Some(Request::RequestHeaders(_)) => response_with_headers(response_headers),
        _ => continue_response(msg),
    };
    let r = (answer, completed);
    proof {
        let pending_after = ctx.noresponse_yet_events_buffer@;
        match &msg.request {
            Some(Request::RequestHeaders(h)) => {
                let id = event@.moesif_gloo_id;
                assert(message_handled(
                    pending,
                    pending_after,
                    user_header,
                    company_header,
                    *msg,
                    r,
                    request_time,
                    id,
                    Seq::empty(),
                ));
            },
            Some(Request::ResponseHeaders(h)) => {
                let gid = gloo_id_of(*h);
                if gid.len() == 0 {
                    assert(message_handled(
                        pending,
                        pending_after,
                        user_header,
                        company_header,
                        *msg,
                        r,
                        request_time,
                        Seq::empty(),
                        Seq::empty(),
                    ));
                } else {
                    let t = choose|t: Seq<char>|
                        (completed->0).1@ == completed_event(pending, gid, response_read(*h, t));
                    assert(message_handled(
                        pending,
                        pending_after,
                        user_header,
                        company_header,
                        *msg,
                        r,
                        request_time,
                        Seq::empty(),
                        t,
                    ));
                }
            },
            _ => {
                assert(message_handled(
                    pending,
                    pending_after,
                    user_header,
                    company_header,
                    *msg,
                    r,
                    request_time,
                    Seq::empty(),
                    Seq::empty(),
                ));
            },
        }
    }
    r
}

/// The event logged for one message when each message is logged on its own,
/// requests and responses unpaired: for request headers, an incoming event
/// whose request is read from them (see `request_read`) at `time`; for
/// response headers, an event whose response is read from them at `time`,
/// the pseudo-headers left out of its headers; an empty event otherwise.
pub open spec fn message_event_model(msg: ProcessingRequest, time: Seq<char>) -> EventModel {
    match msg.request {
        Some(Request::RequestHeaders(h)) => EventModel {
            direction: "Incoming"@,
            request: request_read(RequestModel { time, ..empty_request() }, h),
            ..empty_event()
        },
        Some(Request::ResponseHeaders(h)) => EventModel {
            response: Some(
                ResponseModel {
                    headers: drop_prefixed(headers_model(h.headers), ':'),
                    ..response_read(h, time)
                },
            ),
            ..empty_event()
        },
        _ => empty_event(),
    }
}

/// The event logged for one message seen at `time` (see
/// `message_event_model`).
pub fn message_event(msg: &ProcessingRequest, time: String) -> (e: Event)
    ensures
        e@ == message_event_model(*msg, time@),
{
    let mut event = Event::new();
    match &msg.request {
        Some(Request::RequestHeaders(headers_msg)) => {
            event.request.time = time;
            read_request_headers(&mut event, headers_msg);
        },
        Some(Request::ResponseHeaders(response_headers_msg)) => {
            let (status_str, _) = extract_status_and_id(response_headers_msg);
            let status = match parse_usize(status_str.as_str()) {
                Some(n) => n,
                None => 0,
            };
            let mut headers = message_header_map(response_headers_msg);
            headers.retain_unprefixed(':');
            event.response = Some(
                ResponseInfo { time, status, headers, ip_address: None, body: BodyValue::Null },
            );
        },
        _ => {},
    }
    event
}

/// The event logged for one message, seen at the clock's current time (RFC
/// 3339). The clock's reading is not known, so only that some time was used
/// is stated.
pub fn log_message_event(msg: &ProcessingRequest) -> (e: Event)
    ensures
        exists|t: Seq<char>|
            #![trigger message_event_model(*msg, t)]
            rfc3339_instant(t) is Some && e@ == message_event_model(*msg, t),
{
    let time = now_rfc3339();
    let e = message_event(msg, time);
    e
}

/// With a user header configured, the event's user is the value the
/// request carries under that header (see `identity_value`), or
/// `default_user_id` when it carries none; the pairing-id header aside.
pub proof fn law_user_from_header(
    e: EventModel,
    msg: HttpHeaders,
    added: Seq<(Seq<char>, Seq<char>)>,
    id: Seq<char>,
    user_header: Seq<char>,
    company_header: Option<Seq<char>>,
)
    requires
        !eq_ignore_ascii_case_spec(gloo_id_header(), user_header),
    ensures
        request_headers_outcome(e, msg, added, id, Some(user_header), company_header).0.user_id
            == Some(
            identity_value(drop_prefixed(headers_model(msg.headers), ':'), user_header, "default_user_id"@),
        ),
{
    let kept = drop_prefixed(headers_model(msg.headers), ':');
    lemma_named_header_insert_other(kept, gloo_id_header(), id, user_header);
}

/// With a company header configured (other than the user header, up to
/// ASCII case), the event's company is the value the request carries under
/// that header (see `identity_value`), or `default_company_id` when it
/// carries none; the pairing-id header aside.
pub proof fn law_company_from_header(
    e: EventModel,
    msg: HttpHeaders,
    added: Seq<(Seq<char>, Seq<char>)>,
    id: Seq<char>,
    user_header: Option<Seq<char>>,
    company_header: Seq<char>,
)
    requires
        !eq_ignore_ascii_case_spec(gloo_id_header(), company_header),
        user_header matches Some(u) ==> !eq_ignore_ascii_case_spec(u, company_header),
    ensures
        request_headers_outcome(e, msg, added, id, user_header, Some(company_header)).0.company_id
            == Some(
            identity_value(
                drop_prefixed(headers_model(msg.headers), ':'),
                company_header,
                "default_company_id"@,
            ),
        ),
{
    let kept = drop_prefixed(headers_model(msg.headers), ':');
    let tagged = insert_spec(kept, gloo_id_header(), id);
    lemma_named_header_insert_other(kept, gloo_id_header(), id, company_header);
    match user_header {
        Some(u) => {
            let uv = identity_value(tagged, u, "default_user_id"@);
            lemma_named_header_insert_other(tagged, u, uv, company_header);
        },
        None => {},
    }
}

/// A request's headers, then the response headers that carry the pairing id
/// the request was given: the response completes the very event the request
/// headers produced, that event stops waiting, and the waiting events are as
/// if the request had never come.
pub proof fn law_request_then_response(
    pending: Seq<(Seq<char>, EventModel)>,
    mid: Seq<(Seq<char>, EventModel)>,
    after: Seq<(Seq<char>, EventModel)>,
    user_header: Option<Seq<char>>,
    company_header: Option<Seq<char>>,
    request_msg: ProcessingRequest,
    request_headers: HttpHeaders,
    r1: (ProcessingResponse, Option<(bool, Event)>),
    request_time: Seq<char>,
    id: Seq<char>,
    earlier_response_time: Seq<char>,
    response_msg: ProcessingRequest,
    response_headers: HttpHeaders,
    r2: (ProcessingResponse, Option<(bool, Event)>),
    later_request_time: Seq<char>,
    later_id: Seq<char>,
    response_time: Seq<char>,
)
    requires
        crate::map::keys_distinct(pending),
        request_msg.request == Some(Request::RequestHeaders(request_headers)),
        response_msg.request == Some(Request::ResponseHeaders(response_headers)),
        gloo_id_of(response_headers) == id,
        message_handled(pending, mid, user_header, company_header, request_msg, r1, request_time, id, earlier_response_time),
        message_handled(
            mid,
            after,
            user_header,
            company_header,
            response_msg,
            r2,
            later_request_time,
            later_id,
            response_time,
        ),
    ensures
        r2.1 is Some,
        (r2.1->0).0,
        (r2.1->0).1@ == (EventModel {
            response: Some(response_read(response_headers, response_time)),
            ..request_headers_outcome(
                event_at(request_time),
                request_headers,
                Seq::empty(),
                id,
                user_header,
                company_header,
            ).0
        }),
        after == remove_spec(pending, id),
{
    let out = request_headers_outcome(
        event_at(request_time),
        request_headers,
        Seq::empty(),
        id,
        user_header,
        company_header,
    );
    assert(id.len() == 36);
    crate::root_context::law_store_then_match(pending, id, out.0, response_read(response_headers, response_time));
}

/// Whatever user and company headers are configured, the request's fresh
/// pairing id stays under `X-Moesif-Gloo-ID`, in the event's headers and in
/// the headers envoy is asked to add, and is the event's id: a configured
/// header named `X-Moesif-Gloo-ID` reads that id back.
pub proof fn law_pairing_id_kept(
    e: EventModel,
    msg: HttpHeaders,
    added: Seq<(Seq<char>, Seq<char>)>,
    id: Seq<char>,
    user_header: Option<Seq<char>>,
    company_header: Option<Seq<char>>,
)
    ensures
        ({
            let out = request_headers_outcome(e, msg, added, id, user_header, company_header);
            &&& out.0.moesif_gloo_id == id
            &&& lookup(out.0.request.headers, gloo_id_header()) == Some(id)
            &&& lookup(out.1, gloo_id_header()) == Some(id)
        }),
{
    let gid = gloo_id_header();
    let read = request_read(e.request, msg);
    let headers0 = insert_spec(read.headers, gid, id);
    let added0 = insert_spec(added, gid, id);
    crate::map::law_get_after_insert(read.headers, gid, id, gid);
    crate::map::law_get_after_insert(added, gid, id, gid);
    let tagged = EventModel {
        direction: "Incoming"@,
        request: RequestModel { headers: headers0, ..read },
        moesif_gloo_id: id,
        ..e
    };
    let u = identify_user(tagged, added0, user_header);
    match user_header {
        Some(h) => {
            let v = identity_value(headers0, h, "default_user_id"@);
            crate::map::law_get_after_insert(headers0, h, v, gid);
            crate::map::law_get_after_insert(added0, h, v, gid);
        },
        None => {},
    }
    match company_header {
        Some(h) => {
            let v = identity_value(u.0.request.headers, h, "default_company_id"@);
            crate::map::law_get_after_insert(u.0.request.headers, h, v, gid);
            crate::map::law_get_after_insert(u.1, h, v, gid);
        },
        None => {},
    }
}

/// The request URI is the whole value of the `:path` header, query string
/// included, and the verb the whole value of `:method`: read from a
/// request-headers message alone, and after the whole handling of the
/// message (pairing id and identification included), whatever the user and
/// company headers. With no `:path` the URI is empty; with no `:method` the
/// verb is `GET`.
pub proof fn law_uri_is_path(
    e: EventModel,
    msg: HttpHeaders,
    added: Seq<(Seq<char>, Seq<char>)>,
    id: Seq<char>,
    user_header: Option<Seq<char>>,
    company_header: Option<Seq<char>>,
)
    ensures
        ({
            let all = headers_model(msg.headers);
            let uri = match lookup(all, ":path"@) {
                Some(p) => p,
                None => Seq::<char>::empty(),
            };
            let verb = match lookup(all, ":method"@) {
                Some(m) => m,
                None => "GET"@,
            };
            let out = request_headers_outcome(e, msg, added, id, user_header, company_header).0;
            &&& request_read(e.request, msg).uri == uri
            &&& request_read(e.request, msg).verb == verb
            &&& out.request.uri == uri
            &&& out.request.verb == verb
        }),
{
}

} // verus!
