//! The inspection processor: it logs what envoy sends without pairing
//! requests with responses. Its settings, the plain view of a processing
//! message it sends, and the header lists it prints.

use vstd::prelude::*;
use crate::config::EnvConfig;
use crate::event::lossy_text;
use crate::map::{insert_all, StringMap};
use crate::proto::{HeaderMap, HeaderValue, ProcessingRequest, Request};
use crate::text::{concat, from_utf8_lossy, split_char, split_spec, str_eq};

verus! {

pub fn default_batch_max_size() -> (n: usize)
    ensures
        n == 100,
{
    100
}

pub fn default_batch_max_wait() -> (n: usize)
    ensures
        n == 2000,
{
    2000
}

pub fn default_base_uri() -> (s: String)
    ensures
        s@ == "https://api.moesif.net"@,
{
    "https://api.moesif.net".to_string()
}

pub fn default_debug() -> (b: bool)
    ensures
        !b,
{
    false
}

pub fn connection_timeout() -> (n: usize)
    ensures
        n == 5000,
{
    5000
}

/// The base URI an upstream `outbound|port||host` names: `https://host` for
/// port 443, `http://host` for any other; `None` unless the upstream has
/// exactly four `|`-separated parts.
pub open spec fn upstream_url(upstream: Seq<char>) -> Option<Seq<char>> {
    let parts = split_spec(upstream, '|');
    if parts.len() == 4 {
        Some((if parts[1] == "443"@ { "https"@ } else { "http"@ }) + "://"@ + parts[3])
    } else {
        None
    }
}

/// The base URI of an upstream (see `upstream_url`), or the error
/// `Invalid UPSTREAM format`.
pub fn parse_upstream_url(upstream: &str) -> (r: Result<String, String>)
    ensures
        match r {
            Ok(u) => upstream_url(upstream@) == Some(u@),
            Err(e) => upstream_url(upstream@) is None && e@ == "Invalid UPSTREAM format"@,
        },
{
    let parts = split_char(upstream, '|');
    if parts.len() == 4 {
        let scheme = if str_eq(parts[1].as_str(), "443") {
            "https"
        } else {
            "http"
        };
        let with_sep = concat(scheme, "://");
        Ok(concat(with_sep.as_str(), parts[3].as_str()))
    } else {
        Err("Invalid UPSTREAM format".to_string())
    }
}

/// The inspection processor's settings: the upstream given (by the UPSTREAM
/// variable; `outbound|443||api.moesif.net` when unset), its base URI
/// (`https://api.moesif.net` when the upstream has another shape), the
/// documented batch size (100), batch wait (2000 ms) and connection timeout
/// (5000 ms), debug off, and no application id or identifying headers.
pub fn env_config(upstream: Option<String>) -> (c: EnvConfig)
    ensures
        c.upstream@ == match upstream {
            Some(u) => u@,
            None => "outbound|443||api.moesif.net"@,
        },
        c.base_uri@ == match upstream_url(c.upstream@) {
            Some(u) => u,
            None => "https://api.moesif.net"@,
        },
        c.moesif_application_id@ == Seq::<char>::empty(),
        c.user_id_header is None,
        c.company_id_header is None,
        c.batch_max_size == 100,
        c.batch_max_wait == 2000,
        !c.debug,
        c.connection_timeout == 5000,
{
    let upstream = match upstream {
        Some(u) => u,
        None => "outbound|443||api.moesif.net".to_string(),
    };
    let base_uri = match parse_upstream_url(upstream.as_str()) {
        Ok(u) => u,
        Err(_) => "https://api.moesif.net".to_string(),
    };
    let mut c = EnvConfig::empty();
    c.upstream = upstream;
    c.base_uri = base_uri;
    c.batch_max_size = default_batch_max_size();
    c.batch_max_wait = default_batch_max_wait();
    c.debug = default_debug();
    c.connection_timeout = connection_timeout();
    c
}

/// A processing message as the inspection processor sends it: the headers
/// of request headers or of response headers (name to raw value read as
/// text), and the `:path` and `:method` of request headers.
pub struct ConvertedRequest {
    pub request_headers: Option<StringMap<String>>,
    pub response_headers: Option<StringMap<String>>,
    pub path: Option<String>,
    pub method: Option<String>,
}

/// The (name, raw value as text) pairs of a header list.
pub open spec fn raw_text_pairs(hs: Seq<HeaderValue>) -> Seq<(Seq<char>, Seq<char>)> {
    hs.map_values(|h: HeaderValue| (h.key@, lossy_text(h.raw_value@)))
}

/// The map of name to raw value as text of an optional header list: a later
/// header wins over an earlier one of the same name; empty when there is no
/// list.
pub open spec fn raw_header_map(o: Option<HeaderMap>) -> Seq<(Seq<char>, Seq<char>)> {
    match o {
        Some(hm) => insert_all(Seq::<(Seq<char>, Seq<char>)>::empty(), raw_text_pairs(hm.headers@)),
        None => Seq::<(Seq<char>, Seq<char>)>::empty(),
    }
}

/// The raw value, as text, of the first header named exactly `key`.
pub open spec fn first_raw_text(hs: Seq<HeaderValue>, key: Seq<char>) -> Option<Seq<char>>
    decreases hs.len(),
{
    if hs.len() == 0 {
        None
    } else if hs[0].key@ == key {
        Some(lossy_text(hs[0].raw_value@))
    } else {
        first_raw_text(hs.drop_first(), key)
    }
}

fn lossy(bytes: &Vec<u8>) -> (s: String)
    ensures
        s@ == lossy_text(bytes@),
{
    from_utf8_lossy(bytes.as_slice())
}

fn raw_map_of(o: &Option<HeaderMap>) -> (m: StringMap<String>)
    ensures
        m@ == raw_header_map(*o),
{
    let mut m: StringMap<String> = StringMap::new();
    match o {
        None => {},
        Some(hm) => {
            let ghost ps = raw_text_pairs(hm.headers@);
            let mut i: usize = 0;
            assert(ps.skip(0) =~= ps);
            while i < hm.headers.len()
                invariant
                    ps == raw_text_pairs(hm.headers@),
                    i <= hm.headers@.len(),
                    insert_all(Seq::<(Seq<char>, Seq<char>)>::empty(), ps) == insert_all(
                        m@,
                        ps.skip(i as int),
                    ),
                decreases hm.headers@.len() - i,
            {
                assert(ps.skip(i as int).drop_first() =~= ps.skip(i + 1));
                m.insert(hm.headers[i].key.clone(), lossy(&hm.headers[i].raw_value));
                i = i + 1;
            }
            assert(ps.skip(i as int) =~= Seq::<(Seq<char>, Seq<char>)>::empty());
        },
    }
    m
}

fn first_raw_of(o: &Option<HeaderMap>, key: &str) -> (r: Option<String>)
    ensures
        r.deep_view() == match o {
            Some(hm) => first_raw_text(hm.headers@, key@),
            None => None,
        },
{
    match o {
        None => None,
        Some(hm) => {
            let mut i: usize = 0;
            assert(hm.headers@.skip(0) =~= hm.headers@);
            while i < hm.headers.len()
                invariant
                    *o == Some(*hm),
                    i <= hm.headers@.len(),
                    first_raw_text(hm.headers@, key@) == first_raw_text(
                        hm.headers@.skip(i as int),
                        key@,
                    ),
                decreases hm.headers@.len() - i,
            {
                assert(hm.headers@.skip(i as int).drop_first() =~= hm.headers@.skip(i + 1));
                assert(hm.headers@.skip(i as int)[0] == hm.headers@[i as int]);
                if str_eq(hm.headers[i].key.as_str(), key) {
                    return Some(lossy(&hm.headers[i].raw_value));
                }
                i = i + 1;
            }
            assert(hm.headers@.skip(i as int) =~= Seq::<HeaderValue>::empty());
            None
        },
    }
}

/// The plain view of a processing message: for request headers, their map
/// and the raw `:path` and `:method` values when present; for response
/// headers, their map; nothing for any other message.
pub fn processing_request_to_json(request: &ProcessingRequest) -> (c: ConvertedRequest)
    ensures
        match request.request {
            Some(Request::RequestHeaders(h)) => {
                &&& c.request_headers matches Some(m) && m@ == raw_header_map(h.headers)
                &&& c.response_headers is None
                &&& c.path.deep_view() == match h.headers {
                    Some(hm) => first_raw_text(hm.headers@, ":path"@),
                    None => None,
                }
                &&& c.method.deep_view() == match h.headers {
                    Some(hm) => first_raw_text(hm.headers@, ":method"@),
                    None => None,
                }
            },
            Some(Request::ResponseHeaders(h)) => {
                &&& c.request_headers is None
                &&& c.response_headers matches Some(m) && m@ == raw_header_map(h.headers)
                &&& c.path is None
                &&& c.method is None
            },
            _ => {
                &&& c.request_headers is None
                &&& c.response_headers is None
                &&& c.path is None
                &&& c.method is None
            },
        },
{
    match &request.request {
        Some(Request::RequestHeaders(h)) => ConvertedRequest {
            request_headers: Some(raw_map_of(&h.headers)),
            response_headers: None,
            path: first_raw_of(&h.headers, ":path"),
            method: first_raw_of(&h.headers, ":method"),
        },
        Some(Request::ResponseHeaders(h)) => ConvertedRequest {
            request_headers: None,
            response_headers: Some(raw_map_of(&h.headers)),
            path: None,
            method: None,
        },
        _ => ConvertedRequest {
            request_headers: None,
            response_headers: None,
            path: None,
            method: None,
        },
    }
}

/// The (name, raw value) pairs of an optional header list, in order.
pub open spec fn raw_pairs(o: Option<HeaderMap>) -> Seq<(Seq<char>, Seq<u8>)> {
    match o {
        Some(hm) => hm.headers@.map_values(|h: HeaderValue| (h.key@, h.raw_value@)),
        None => Seq::empty(),
    }
}

fn raw_pairs_of(o: &Option<HeaderMap>) -> (r: Vec<(String, Vec<u8>)>)
    ensures
        r@.map_values(|p: (String, Vec<u8>)| (p.0@, p.1@)) == raw_pairs(*o),
{
    let mut r: Vec<(String, Vec<u8>)> = Vec::new();
    if let Some(hm) = o {
        let mut i: usize = 0;
        while i < hm.headers.len()
            invariant
                i <= hm.headers@.len(),
                r@.len() == i,
                forall|j: int|
                    0 <= j < i ==> (#[trigger] r@[j]).0@ == hm.headers@[j].key@ && r@[j].1@
                        == hm.headers@[j].raw_value@,
            decreases hm.headers@.len() - i,
        {
            let raw = hm.headers[i].raw_value.clone();
            assert(raw@ =~= hm.headers@[i as int].raw_value@);
            r.push((hm.headers[i].key.clone(), raw));
            i = i + 1;
        }
    }
    assert(r@.map_values(|p: (String, Vec<u8>)| (p.0@, p.1@)) =~= raw_pairs(*o));
    r
}

/// The header list the inspection processor prints for a message, with the
/// direction it is labelled by: `Client-to-Server` and the (name, raw
/// value) pairs of request headers, `Server-to-Client` and those of response
/// headers; nothing for any other message.
pub fn process_message(msg: &ProcessingRequest) -> (r: Option<(String, Vec<(String, Vec<u8>)>)>)
    ensures
        match msg.request {
            Some(Request::RequestHeaders(h)) => r matches Some(p) && p.0@ == "Client-to-Server"@
                && p.1@.map_values(|q: (String, Vec<u8>)| (q.0@, q.1@)) == raw_pairs(h.headers),
            Some(Request::ResponseHeaders(h)) => r matches Some(p) && p.0@ == "Server-to-Client"@
                && p.1@.map_values(|q: (String, Vec<u8>)| (q.0@, q.1@)) == raw_pairs(h.headers),
            _ => r is None,
        },
{
    match &msg.request {
        Some(Request::RequestHeaders(h)) => Some(("Client-to-Server".to_string(), raw_pairs_of(&h.headers))),
        Some(Request::ResponseHeaders(h)) => Some(("Server-to-Client".to_string(), raw_pairs_of(&h.headers))),
        _ => None,
    }
}

} // verus!
