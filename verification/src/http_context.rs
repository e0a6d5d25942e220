//! The event of one HTTP exchange, built up as its parts are seen: request
//! headers, request body chunks, response headers, response body chunks.

use vstd::prelude::*;
use crate::config::Config;
use crate::event::{
    body_bytes_to_value, body_model, empty_event, BodyModel, BodyValue, Event, EventModel,
    RequestModel, ResponseInfo, ResponseModel,
};
use crate::external::{is_json, now_rfc3339, rfc3339_instant};
use crate::headers::{get_named, headers_from_pairs, lowered_pairs, named_header};
use crate::map::{drop_prefixed, insert_all, key_starts_with, lemma_lookup_drop_prefixed, lookup};
use crate::processing::{fill_request, header_or, request_from_headers};
use crate::text::{parse_usize, parse_usize_spec};

verus! {

/// The header map of (name, value) pairs whose names are already
/// lower-cased: a later pair wins over an earlier one with the same name.
pub open spec fn pairs_map(lowered: Seq<(Seq<char>, Seq<char>)>) -> Seq<(Seq<char>, Seq<char>)> {
    insert_all(Seq::<(Seq<char>, Seq<char>)>::empty(), lowered)
}

/// The value an identifying header gives: the value of the header so named
/// (see `named_header`) when a header is configured (none when the request
/// lacks it), `current` when none is configured.
pub open spec fn identified_by(
    headers: Seq<(Seq<char>, Seq<char>)>,
    name: Option<Seq<char>>,
    current: Option<Seq<char>>,
) -> Option<Seq<char>> {
    match name {
        Some(h) => named_header(headers, h),
        None => current,
    }
}

/// The event once the request headers (`lowered`, names lower-cased) are
/// seen at `time`: incoming, the request read from them (see
/// `request_from_headers`), and the user and company taken from the
/// configured headers.
pub open spec fn request_headers_seen(
    e: EventModel,
    lowered: Seq<(Seq<char>, Seq<char>)>,
    time: Seq<char>,
    user_header: Option<Seq<char>>,
    company_header: Option<Seq<char>>,
) -> EventModel {
    let req = request_from_headers(RequestModel { time, ..e.request }, pairs_map(lowered));
    EventModel {
        direction: "Incoming"@,
        request: req,
        user_id: identified_by(req.headers, user_header, e.user_id),
        company_id: identified_by(req.headers, company_header, e.company_id),
        ..e
    }
}

/// The event once the response headers (`lowered`, names lower-cased) are
/// seen at `time`: a response whose status is the request's `:status`
/// header read as a number (0 when missing or not a number), whose headers
/// are those given without the pseudo-headers, and whose address is the
/// request's `x-forwarded-for` header.
pub open spec fn response_headers_seen(
    e: EventModel,
    lowered: Seq<(Seq<char>, Seq<char>)>,
    time: Seq<char>,
) -> EventModel {
    let status_text = header_or(e.request.headers, ":status"@, "0"@);
    EventModel {
        response: Some(
            ResponseModel {
                time,
                status: match parse_usize_spec(status_text) {
                    Some(n) => n,
                    None => 0,
                },
                headers: drop_prefixed(pairs_map(lowered), ':'),
                ip_address: lookup(e.request.headers, "x-forwarded-for"@),
                body: BodyModel::Null,
            },
        ),
        ..e
    }
}

/// The event and the request bytes held after a request body chunk: the
/// chunk is added to the bytes held; at the end of the stream they are all
/// taken out and become the request's body value (see `body_model`), by the
/// request's `content-type` header.
pub open spec fn request_body_step(
    e: EventModel,
    held: Seq<u8>,
    chunk: Seq<u8>,
    end_of_stream: bool,
) -> (EventModel, Seq<u8>) {
    let received = held + chunk;
    if end_of_stream {
        (
            EventModel {
                request: RequestModel {
                    body: body_model(received, lookup(e.request.headers, "content-type"@)),
                    ..e.request
                },
                ..e
            },
            Seq::empty(),
        )
    } else {
        (e, received)
    }
}

/// The event and the response bytes held after a response body chunk: the
/// chunk is added to the bytes held; at the end of the stream, once the
/// response is known, they are all taken out and become its body value (see
/// `body_model`), by its `content-type` header; with no response yet they
/// stay.
pub open spec fn response_body_step(
    e: EventModel,
    held: Seq<u8>,
    chunk: Seq<u8>,
    end_of_stream: bool,
) -> (EventModel, Seq<u8>) {
    let received = held + chunk;
    if end_of_stream && e.response is Some {
        let resp = e.response->0;
        (
            EventModel {
                response: Some(
                    ResponseModel {
                        body: body_model(received, lookup(resp.headers, "content-type"@)),
                        ..resp
                    },
                ),
                ..e
            },
            Seq::empty(),
        )
    } else {
        (e, received)
    }
}

/// The bytes of a list of chunks, one after the other.
pub open spec fn joined(chunks: Seq<Seq<u8>>) -> Seq<u8>
    decreases chunks.len(),
{
    if chunks.len() == 0 {
        Seq::empty()
    } else {
        chunks[0] + joined(chunks.drop_first())
    }
}

/// The event and the request bytes held after the chunks `chunks`, none of
/// them ending the stream.
pub open spec fn request_chunks_fed(e: EventModel, held: Seq<u8>, chunks: Seq<Seq<u8>>) -> (
    EventModel,
    Seq<u8>,
)
    decreases chunks.len(),
{
    if chunks.len() == 0 {
        (e, held)
    } else {
        let s = request_body_step(e, held, chunks[0], false);
        request_chunks_fed(s.0, s.1, chunks.drop_first())
    }
}

/// The event and the response bytes held after the chunks `chunks`, none of
/// them ending the stream.
pub open spec fn response_chunks_fed(e: EventModel, held: Seq<u8>, chunks: Seq<Seq<u8>>) -> (
    EventModel,
    Seq<u8>,
)
    decreases chunks.len(),
{
    if chunks.len() == 0 {
        (e, held)
    } else {
        let s = response_body_step(e, held, chunks[0], false);
        response_chunks_fed(s.0, s.1, chunks.drop_first())
    }
}

/// A body received in any number of chunks is recorded as if it came in
/// one: the chunks before the last leave the event as it was and only add
/// to the bytes held, and the last chunk records the body of all the chunks
/// joined, for the request and for the response.
pub proof fn law_body_chunks_join(e: EventModel, held: Seq<u8>, chunks: Seq<Seq<u8>>, last: Seq<u8>)
    ensures
        request_chunks_fed(e, held, chunks) == (e, held + joined(chunks)),
        response_chunks_fed(e, held, chunks) == (e, held + joined(chunks)),
        ({
            let fed = request_chunks_fed(e, held, chunks);
            request_body_step(fed.0, fed.1, last, true) == request_body_step(
                e,
                held,
                joined(chunks) + last,
                true,
            )
        }),
        ({
            let fed = response_chunks_fed(e, held, chunks);
            response_body_step(fed.0, fed.1, last, true) == response_body_step(
                e,
                held,
                joined(chunks) + last,
                true,
            )
        }),
    decreases chunks.len(),
{
    if chunks.len() == 0 {
        assert(held + joined(chunks) =~= held);
    } else {
        law_body_chunks_join(e, held + chunks[0], chunks.drop_first(), last);
        assert(held + chunks[0] + joined(chunks.drop_first()) =~= held + joined(chunks));
    }
    assert(held + joined(chunks) + last =~= held + (joined(chunks) + last));
}

/// With a user header configured, the event's user is the value the request
/// carries under that header (see `named_header`), none when it carries
/// none; likewise for the company.
pub proof fn law_identity_from_headers(
    e: EventModel,
    lowered: Seq<(Seq<char>, Seq<char>)>,
    time: Seq<char>,
    user_header: Seq<char>,
    company_header: Seq<char>,
)
    ensures
        ({
            let seen = request_headers_seen(e, lowered, time, Some(user_header), Some(company_header));
            let kept = drop_prefixed(pairs_map(lowered), ':');
            &&& seen.user_id == named_header(kept, user_header)
            &&& seen.company_id == named_header(kept, company_header)
        }),
{
}

/// The event of one HTTP exchange and the body bytes received so far.
pub struct EventHttpContext {
    pub config: Config,
    pub event: Event,
    pub request_body: Vec<u8>,
    pub response_body: Vec<u8>,
}

impl EventHttpContext {
    /// An exchange not seen yet: an empty event, no body bytes.
    pub fn new(config: Config) -> (c: Self)
        ensures
            c.config == config,
            c.event@ == empty_event(),
            c.request_body@.len() == 0,
            c.response_body@.len() == 0,
    {
        EventHttpContext {
            config,
            event: Event::new(),
            request_body: Vec::new(),
            response_body: Vec::new(),
        }
    }

    /// Records the request headers seen at `time` (see
    /// `request_headers_seen`).
    pub fn on_http_request_headers_at(&mut self, headers: Vec<(String, String)>, time: String)
        ensures
            final(self).event@ == request_headers_seen(
                old(self).event@,
                lowered_pairs(headers@),
                time@,
                old(self).config.env.user_id_header.deep_view(),
                old(self).config.env.company_id_header.deep_view(),
            ),
            final(self).config == old(self).config,
            final(self).request_body == old(self).request_body,
            final(self).response_body == old(self).response_body,
    {
        self.event.direction = "Incoming".to_string();
        self.event.request.time = time;
        let all = headers_from_pairs(headers);
        fill_request(&mut self.event.request, all);
        if let Some(user_id_header) = &self.config.env.user_id_header {
            self.event.user_id = get_named(&self.event.request.headers, user_id_header.as_str());
        }
        if let Some(company_id_header) = &self.config.env.company_id_header {
            self.event.company_id = get_named(&self.event.request.headers, company_id_header.as_str());
        }
    }

    /// Records the request headers at the clock's current time (RFC 3339).
    /// The clock's reading is not known, so only that some time was used is
    /// stated.
    pub fn on_http_request_headers(&mut self, headers: Vec<(String, String)>)
        ensures
            exists|t: Seq<char>|
                #![trigger request_headers_seen(
                    old(self).event@,
                    lowered_pairs(headers@),
                    t,
                    old(self).config.env.user_id_header.deep_view(),
                    old(self).config.env.company_id_header.deep_view(),
                )]
                rfc3339_instant(t) is Some && final(self).event@ == request_headers_seen(
                    old(self).event@,
                    lowered_pairs(headers@),
                    t,
                    old(self).config.env.user_id_header.deep_view(),
                    old(self).config.env.company_id_header.deep_view(),
                ),
            final(self).config == old(self).config,
            final(self).request_body == old(self).request_body,
            final(self).response_body == old(self).response_body,
    {
        let time = now_rfc3339();
        self.on_http_request_headers_at(headers, time);
    }

    /// Adds a chunk of the request body. At the end of the stream the bytes
    /// received are taken out and become the request's body value (see
    /// `body_model`), by the request's `content-type` header.
    pub fn on_http_request_body(&mut self, body: Vec<u8>, end_of_stream: bool)
        ensures
            (final(self).event@, final(self).request_body@) == request_body_step(
                old(self).event@,
                old(self).request_body@,
                body@,
                end_of_stream,
            ),
            final(self).config == old(self).config,
            final(self).response_body == old(self).response_body,
    {
        let mut body = body;
        self.request_body.append(&mut body);
        if end_of_stream {
            let mut received: Vec<u8> = Vec::new();
            std::mem::swap(&mut received, &mut self.request_body);
            let content_type = match self.event.request.headers.get("content-type") {
                Some(v) => Some(v.clone()),
                None => None,
            };
            let value = match &content_type {
                Some(c) => body_bytes_to_value(received, Some(c)),
                None => body_bytes_to_value(received, None),
            };
            self.event.request.body = value;
        }
    }

    /// Records the response headers seen at `time` (see
    /// `response_headers_seen`).
    pub fn on_http_response_headers_at(&mut self, headers: Vec<(String, String)>, time: String)
        ensures
            final(self).event@ == response_headers_seen(old(self).event@, lowered_pairs(headers@), time@),
            final(self).config == old(self).config,
            final(self).request_body == old(self).request_body,
            final(self).response_body == old(self).response_body,
    {
        let status_str = match self.event.request.headers.get(":status") {
            Some(v) => v.clone(),
            None => "0".to_string(),
        };
        let status = match parse_usize(status_str.as_str()) {
            Some(n) => n,
            None => 0,
        };
        let mut response_headers = headers_from_pairs(headers);
        response_headers.retain_unprefixed(':');
        let ip_address = match self.event.request.headers.get("x-forwarded-for") {
            Some(v) => Some(v.clone()),
            None => None,
        };
        self.event.response = Some(
            ResponseInfo {
                time,
                status,
                headers: response_headers,
                ip_address,
                body: BodyValue::Null,
            },
        );
    }

    /// Records the response headers at the clock's current time (RFC 3339).
    /// The clock's reading is not known, so only that some time was used is
    /// stated.
    pub fn on_http_response_headers(&mut self, headers: Vec<(String, String)>)
        ensures
            exists|t: Seq<char>|
                #![trigger response_headers_seen(old(self).event@, lowered_pairs(headers@), t)]
                rfc3339_instant(t) is Some && final(self).event@ == response_headers_seen(
                    old(self).event@,
                    lowered_pairs(headers@),
                    t,
                ),
            final(self).config == old(self).config,
            final(self).request_body == old(self).request_body,
            final(self).response_body == old(self).response_body,
    {
        let time = now_rfc3339();
        self.on_http_response_headers_at(headers, time);
    }

    /// Adds a chunk of the response body. At the end of the stream, once the
    /// response is known, the bytes received are taken out and become its
    /// body value (see `body_model`), by its `content-type` header; with no
    /// response yet they stay.
    pub fn on_http_response_body(&mut self, body: Vec<u8>, end_of_stream: bool)
        ensures
            (final(self).event@, final(self).response_body@) == response_body_step(
                old(self).event@,
                old(self).response_body@,
                body@,
                end_of_stream,
            ),
            final(self).config == old(self).config,
            final(self).request_body == old(self).request_body,
    {
        let mut body = body;
        self.response_body.append(&mut body);
        if end_of_stream {
            let mut response: Option<ResponseInfo> = None;
            std::mem::swap(&mut response, &mut self.event.response);
            match response {
                Some(mut r) => {
                    let mut received: Vec<u8> = Vec::new();
                    std::mem::swap(&mut received, &mut self.response_body);
                    let content_type = match r.headers.get("content-type") {
                        Some(v) => Some(v.clone()),
                        None => None,
                    };
                    let value = match &content_type {
                        Some(c) => body_bytes_to_value(received, Some(c)),
                        None => body_bytes_to_value(received, None),
                    };
                    r.body = value;
                    self.event.response = Some(r);
                },
                None => {},
            }
        }
    }
}

/// After response headers that declare `application/json`, a response body
/// that holds a JSON document is recorded as that document, whatever the
/// request's headers: the response's own content type decides. Likewise a
/// request body is recorded by the request's own content type, whatever an
/// earlier response held.
pub proof fn law_body_by_own_content_type(
    e: EventModel,
    lowered: Seq<(Seq<char>, Seq<char>)>,
    time: Seq<char>,
    body: Seq<u8>,
    user_header: Option<Seq<char>>,
    company_header: Option<Seq<char>>,
)
    requires
        lookup(pairs_map(lowered), "content-type"@) == Some("application/json"@),
        body.len() > 0,
        is_json(body),
    ensures
        response_body_step(response_headers_seen(e, lowered, time), Seq::empty(), body, true).0.response
            matches Some(r) && r.body == BodyModel::Json(body),
        request_body_step(
            request_headers_seen(e, lowered, time, user_header, company_header),
            Seq::empty(),
            body,
            true,
        ).0.request.body == BodyModel::Json(body),
{
    reveal_strlit("content-type");
    assert(!key_starts_with("content-type"@, ':'));
    lemma_lookup_drop_prefixed(pairs_map(lowered), ':', "content-type"@);
    assert(Seq::<u8>::empty() + body =~= body);
}

/// The URI of the request is the whole value of its `:path` header, query
/// string included (empty without one), and the verb the whole value of
/// `:method` (`GET` without one).
pub proof fn law_request_uri_is_path(
    e: EventModel,
    lowered: Seq<(Seq<char>, Seq<char>)>,
    time: Seq<char>,
    user_header: Option<Seq<char>>,
    company_header: Option<Seq<char>>,
)
    ensures
        ({
            let seen = request_headers_seen(e, lowered, time, user_header, company_header);
            &&& seen.request.uri == match lookup(pairs_map(lowered), ":path"@) {
                Some(p) => p,
                None => Seq::<char>::empty(),
            }
            &&& seen.request.verb == match lookup(pairs_map(lowered), ":method"@) {
                Some(m) => m,
                None => "GET"@,
            }
        }),
{
}

} // verus!
