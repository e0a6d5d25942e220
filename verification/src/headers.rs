//! Reading HTTP headers: building the lower-cased header map, finding a header
//! by name, and finding the client address among the forwarding headers.

use vstd::prelude::*;
use crate::external::{is_ip_address, parses_as_ip};
use crate::map::{insert_all, insert_spec, lookup, StringMap};
use crate::proto::{HeaderMap, HeaderValue, HttpHeaders};
use crate::text::{
    eq_ignore_ascii_case, eq_ignore_ascii_case_spec, split_char, split_spec, str_eq,
    to_lowercase, trim, trim_spec, unicode_lowercase,
};

verus! {

/// Header pairs with their names lower-cased.
pub open spec fn lowered_pairs(ps: Seq<(String, String)>) -> Seq<(Seq<char>, Seq<char>)> {
    ps.map_values(|p: (String, String)| (unicode_lowercase(p.0@), p.1@))
}

/// The (lower-cased name, value) pairs of envoy headers.
pub open spec fn lowered_headers(hs: Seq<HeaderValue>) -> Seq<(Seq<char>, Seq<char>)> {
    hs.map_values(|h: HeaderValue| (unicode_lowercase(h.key@), h.value@))
}

proof fn lemma_insert_all_step<W>(es: Seq<(Seq<char>, W)>, ps: Seq<(Seq<char>, W)>, i: int)
    requires
        0 <= i < ps.len(),
    ensures
        insert_all(es, ps.skip(i)) == insert_all(insert_spec(es, ps[i].0, ps[i].1), ps.skip(i + 1)),
{
    assert(ps.skip(i).drop_first() =~= ps.skip(i + 1));
}

/// Inserts `pairs` into an empty map in order: a later pair wins over an
/// earlier one with the same name.
fn map_from_lowered(pairs: Vec<(String, String)>) -> (m: StringMap<String>)
    ensures
        m@ == insert_all(Seq::<(Seq<char>, Seq<char>)>::empty(), lowered_pairs(pairs@)),
{
    let ghost ps = lowered_pairs(pairs@);
    let mut m: StringMap<String> = StringMap::new();
    let mut rest = pairs;
    let mut i: usize = 0;
    assert(ps.skip(0) =~= ps);
    let n = rest.len();
    while rest.len() > 0
        invariant
            n == ps.len(),
            i + rest@.len() == n,
            forall|j: int| 0 <= j < rest@.len() ==> (unicode_lowercase((#[trigger] rest@[j]).0@), rest@[j].1@) == ps[i + j],
            insert_all(Seq::<(Seq<char>, Seq<char>)>::empty(), ps) == insert_all(m@, ps.skip(i as int)),
        decreases rest@.len(),
    {
        let (k, v) = rest.remove(0);
        proof {
            lemma_insert_all_step(m@, ps, i as int);
        }
        let lk = to_lowercase(k.as_str());
        m.insert(lk, v);
        i = i + 1;
    }
    assert(ps.skip(i as int) =~= Seq::<(Seq<char>, Seq<char>)>::empty());
    m
}

/// The header map of a list of (name, value) pairs: names lower-cased, a
/// later pair winning over an earlier one with the same name.
pub fn headers_from_pairs(headers: Vec<(String, String)>) -> (m: StringMap<String>)
    ensures
        m@ == insert_all(Seq::<(Seq<char>, Seq<char>)>::empty(), lowered_pairs(headers@)),
{
    map_from_lowered(headers)
}

/// The header map of an optional envoy header list: names lower-cased, a
/// later header winning over an earlier one with the same name; empty when
/// there is no list.
pub open spec fn headers_model(header_map: Option<HeaderMap>) -> Seq<(Seq<char>, Seq<char>)> {
    match header_map {
        Some(hm) => insert_all(Seq::<(Seq<char>, Seq<char>)>::empty(), lowered_headers(hm.headers@)),
        None => Seq::<(Seq<char>, Seq<char>)>::empty(),
    }
}

/// The header map of an envoy header list: names lower-cased, a later header
/// winning over an earlier one with the same name; empty when there is none.
pub fn header_list_to_map(header_map: Option<HeaderMap>) -> (m: StringMap<String>)
    ensures
        m@ == headers_model(header_map),
{
    match header_map {
        None => StringMap::new(),
        Some(hm) => {
            let ghost hs = hm.headers@;
            let mut pairs: Vec<(String, String)> = Vec::new();
            let mut rest = hm.headers;
            let n = rest.len();
            while rest.len() > 0
                invariant
                    n == hs.len(),
                    pairs@.len() + rest@.len() == n,
                    forall|j: int| 0 <= j < rest@.len() ==> #[trigger] rest@[j] == hs[pairs@.len() + j],
                    forall|j: int|
                        0 <= j < pairs@.len() ==> (#[trigger] pairs@[j]).0@ == hs[j].key@
                            && pairs@[j].1@ == hs[j].value@,
                decreases rest@.len(),
            {
                let h = rest.remove(0);
                pairs.push((h.key, h.value));
            }
            assert(lowered_pairs(pairs@) =~= lowered_headers(hs));
            map_from_lowered(pairs)
        },
    }
}

/// The header map of a headers message, as `header_list_to_map` builds it
/// from a copy of the message's header list.
pub fn message_header_map(msg: &HttpHeaders) -> (m: StringMap<String>)
    ensures
        m@ == headers_model(msg.headers),
{
    match &msg.headers {
        None => StringMap::new(),
        Some(hm) => {
            let ghost hs = hm.headers@;
            let mut pairs: Vec<(String, String)> = Vec::new();
            let mut i: usize = 0;
            while i < hm.headers.len()
                invariant
                    hs == hm.headers@,
                    i <= hs.len(),
                    pairs@.len() == i,
                    forall|j: int|
                        0 <= j < i ==> (#[trigger] pairs@[j]).0@ == hs[j].key@ && pairs@[j].1@
                            == hs[j].value@,
                decreases hs.len() - i,
            {
                pairs.push((hm.headers[i].key.clone(), hm.headers[i].value.clone()));
                i = i + 1;
            }
            assert(lowered_pairs(pairs@) =~= lowered_headers(hs));
            headers_from_pairs(pairs)
        },
    }
}

/// The value of the first pair whose name equals `name` up to ASCII case.
pub open spec fn find_header(ps: Seq<(Seq<char>, Seq<char>)>, name: Seq<char>) -> Option<
    Seq<char>,
>
    decreases ps.len(),
{
    if ps.len() == 0 {
        None
    } else if eq_ignore_ascii_case_spec(ps[0].0, name) {
        Some(ps[0].1)
    } else {
        find_header(ps.drop_first(), name)
    }
}

/// The pairs of a header list as character sequences.
pub open spec fn pair_views(ps: Seq<(String, String)>) -> Seq<(Seq<char>, Seq<char>)> {
    ps.map_values(|p: (String, String)| (p.0@, p.1@))
}

/// The value of the first header named `name`, names compared up to ASCII
/// case.
pub fn get_header(headers: &Vec<(String, String)>, name: &str) -> (r: Option<String>)
    ensures
        r.deep_view() == find_header(pair_views(headers@), name@),
{
    let ghost ps = pair_views(headers@);
    let mut i: usize = 0;
    assert(ps.skip(0) =~= ps);
    while i < headers.len()
        invariant
            ps == pair_views(headers@),
            i <= headers.len(),
            find_header(ps, name@) == find_header(ps.skip(i as int), name@),
        decreases headers.len() - i,
    {
        assert(ps.skip(i as int).drop_first() =~= ps.skip(i + 1));
        if eq_ignore_ascii_case(headers[i].0.as_str(), name) {
            return Some(headers[i].1.clone());
        }
        i = i + 1;
    }
    assert(ps.skip(i as int) =~= Seq::<(Seq<char>, Seq<char>)>::empty());
    None
}

/// The value of the first entry of a header map whose name equals `name`
/// up to ASCII case.
pub fn find_in_map(m: &StringMap<String>, name: &str) -> (r: Option<String>)
    ensures
        r.deep_view() == find_header(m@, name@),
{
    let mut i: usize = 0;
    assert(m@.skip(0) =~= m@);
    while i < m.len()
        invariant
            i <= m@.len(),
            find_header(m@, name@) == find_header(m@.skip(i as int), name@),
        decreases m@.len() - i,
    {
        assert(m@.skip(i as int).drop_first() =~= m@.skip(i + 1));
        assert(m@.skip(i as int)[0] == m@[i as int]);
        if eq_ignore_ascii_case(m.key_at(i).as_str(), name) {
            return Some(m.value_at(i).clone());
        }
        i = i + 1;
    }
    assert(m@.skip(i as int) =~= Seq::<(Seq<char>, Seq<char>)>::empty());
    None
}

/// The value of the header named `name` in a header map: the entry with
/// exactly that name when there is one, else the first entry whose name
/// equals it up to ASCII case (names arrive lower-cased, configured names
/// may have capitals).
pub open spec fn named_header(ps: Seq<(Seq<char>, Seq<char>)>, name: Seq<char>) -> Option<Seq<char>> {
    match lookup(ps, name) {
        Some(v) => Some(v),
        None => find_header(ps, name),
    }
}

/// The value of the header named `name` in a header map (see
/// `named_header`).
pub fn get_named(m: &StringMap<String>, name: &str) -> (r: Option<String>)
    ensures
        r.deep_view() == named_header(m@, name@),
{
    match m.get(name) {
        Some(v) => Some(v.clone()),
        None => find_in_map(m, name),
    }
}

/// Storing a header whose name differs, up to ASCII case, from `name` does
/// not change which value `name` finds.
pub proof fn lemma_find_header_insert_other(
    ps: Seq<(Seq<char>, Seq<char>)>,
    k: Seq<char>,
    v: Seq<char>,
    name: Seq<char>,
)
    requires
        !eq_ignore_ascii_case_spec(k, name),
    ensures
        find_header(insert_spec(ps, k, v), name) == find_header(ps, name),
    decreases ps.len(),
{
    if ps.len() == 0 {
        assert(seq![(k, v)].drop_first() =~= ps);
    } else if ps[0].0 == k {
        assert((seq![(k, v)] + ps.drop_first()).drop_first() =~= ps.drop_first());
    } else {
        lemma_find_header_insert_other(ps.drop_first(), k, v, name);
        assert((seq![ps[0]] + insert_spec(ps.drop_first(), k, v)).drop_first() =~= insert_spec(
            ps.drop_first(),
            k,
            v,
        ));
    }
}

/// The headers that may carry the client address, in the order they are
/// consulted.
pub open spec fn client_ip_headers() -> Seq<Seq<char>> {
    seq![
        "x-client-ip"@,
        "x-forwarded-for"@,
        "cf-connecting-ip"@,
        "fastly-client-ip"@,
        "true-client-ip"@,
        "x-real-ip"@,
        "x-cluster-client-ip"@,
        "x-forwarded"@,
        "forwarded-for"@,
        "forwarded"@,
        "x-appengine-user-ip"@,
        "cf-pseudo-ipv4"@,
    ]
}

/// The first of the comma-separated pieces that, trimmed, is an IP address.
pub open spec fn first_ip(pieces: Seq<Seq<char>>) -> Option<Seq<char>>
    decreases pieces.len(),
{
    if pieces.len() == 0 {
        None
    } else if is_ip_address(trim_spec(pieces[0])) {
        Some(trim_spec(pieces[0]))
    } else {
        first_ip(pieces.drop_first())
    }
}

/// The client address: the first IP address found in the first of `names`
/// that holds one.
pub open spec fn client_ip_from(headers: Seq<(Seq<char>, Seq<char>)>, names: Seq<Seq<char>>) -> Option<
    Seq<char>,
>
    decreases names.len(),
{
    if names.len() == 0 {
        None
    } else {
        let here = match lookup(headers, names[0]) {
            Some(v) => first_ip(split_spec(v, ',')),
            None => None,
        };
        match here {
            Some(ip) => Some(ip),
            None => client_ip_from(headers, names.drop_first()),
        }
    }
}

/// The client address of a request, read from its forwarding headers.
pub open spec fn client_ip_spec(headers: Seq<(Seq<char>, Seq<char>)>) -> Option<Seq<char>> {
    client_ip_from(headers, client_ip_headers())
}

fn first_ip_in(value: &String) -> (r: Option<String>)
    ensures
        r.deep_view() == first_ip(split_spec(value@, ',')),
{
    let pieces = split_char(value.as_str(), ',');
    let ghost ps = split_spec(value@, ',');
    let mut i: usize = 0;
    assert(ps.skip(0) =~= ps);
    while i < pieces.len()
        invariant
            ps == split_spec(value@, ','),
            pieces@.len() == ps.len(),
            forall|k: int| 0 <= k < pieces@.len() ==> #[trigger] pieces@[k]@ == ps[k],
            i <= pieces.len(),
            first_ip(ps) == first_ip(ps.skip(i as int)),
        decreases pieces.len() - i,
    {
        assert(ps.skip(i as int).drop_first() =~= ps.skip(i + 1));
        assert(ps.skip(i as int)[0] == ps[i as int]);
        let t = trim(pieces[i].as_str());
        if parses_as_ip(t.as_str()) {
            return Some(t);
        }
        i = i + 1;
    }
    assert(ps.skip(i as int) =~= Seq::<Seq<char>>::empty());
    None
}

/// The client address of a request: the first header of the forwarding list
/// present that holds a comma-separated piece which, trimmed, parses as an IP
/// address; that trimmed piece.
pub fn get_client_ip(headers: &StringMap<String>) -> (r: Option<String>)
    ensures
        r.deep_view() == client_ip_spec(headers@),
{
    let names = vec![
        "x-client-ip",
        "x-forwarded-for",
        "cf-connecting-ip",
        "fastly-client-ip",
        "true-client-ip",
        "x-real-ip",
        "x-cluster-client-ip",
        "x-forwarded",
        "forwarded-for",
        "forwarded",
        "x-appengine-user-ip",
        "cf-pseudo-ipv4",
    ];
    let ghost ns = client_ip_headers();
    assert(names@.map_values(|s: &str| s@) =~= ns);
    let mut i: usize = 0;
    assert(ns.skip(0) =~= ns);
    while i < names.len()
        invariant
            names@.len() == ns.len(),
            forall|k: int| 0 <= k < names@.len() ==> #[trigger] names@[k]@ == ns[k],
            i <= names.len(),
            client_ip_spec(headers@) == client_ip_from(headers@, ns.skip(i as int)),
        decreases names.len() - i,
    {
        assert(ns.skip(i as int).drop_first() =~= ns.skip(i + 1));
        assert(ns.skip(i as int)[0] == ns[i as int]);
        if let Some(value) = headers.get(names[i]) {
            let found = first_ip_in(value);
            if found.is_some() {
                return found;
            }
        }
        i = i + 1;
    }
    assert(ns.skip(i as int) =~= Seq::<Seq<char>>::empty());
    None
}

/// Whether a header name matches `key`: exactly, or up to ASCII case when
/// `ignore_case` holds.
pub open spec fn name_matches(name: Seq<char>, key: Seq<char>, ignore_case: bool) -> bool {
    if ignore_case {
        eq_ignore_ascii_case_spec(name, key)
    } else {
        name == key
    }
}

/// The value of the first header whose name matches `key` (see
/// `name_matches`).
pub open spec fn first_value(hs: Seq<HeaderValue>, key: Seq<char>, ignore_case: bool) -> Option<
    Seq<char>,
>
    decreases hs.len(),
{
    if hs.len() == 0 {
        None
    } else if name_matches(hs[0].key@, key, ignore_case) {
        Some(hs[0].value@)
    } else {
        first_value(hs.drop_first(), key, ignore_case)
    }
}

fn find_value(hs: &Vec<HeaderValue>, key: &str, ignore_case: bool) -> (r: Option<String>)
    ensures
        r.deep_view() == first_value(hs@, key@, ignore_case),
{
    let mut i: usize = 0;
    assert(hs@.skip(0) =~= hs@);
    while i < hs.len()
        invariant
            i <= hs.len(),
            first_value(hs@, key@, ignore_case) == first_value(hs@.skip(i as int), key@, ignore_case),
        decreases hs.len() - i,
    {
        assert(hs@.skip(i as int).drop_first() =~= hs@.skip(i + 1));
        let matches = if ignore_case {
            eq_ignore_ascii_case(hs[i].key.as_str(), key)
        } else {
            str_eq(hs[i].key.as_str(), key)
        };
        if matches {
            return Some(hs[i].value.clone());
        }
        i = i + 1;
    }
    assert(hs@.skip(i as int) =~= Seq::<HeaderValue>::empty());
    None
}

/// The value of the first header of a message whose name matches `key` (see
/// `name_matches`).
pub open spec fn message_value(msg: HttpHeaders, key: Seq<char>, ignore_case: bool) -> Option<
    Seq<char>,
> {
    match msg.headers {
        Some(hm) => first_value(hm.headers@, key, ignore_case),
        None => None,
    }
}

/// The `:status` value of a headers message, the name compared exactly
/// (`"0"` when there is none), and its `X-Moesif-Gloo-ID` value, the name
/// compared up to ASCII case since envoy sends names lower-cased (empty
/// when there is none).
pub fn extract_status_and_id(headers_msg: &HttpHeaders) -> (r: (String, String))
    ensures
        r.0@ == match message_value(*headers_msg, ":status"@, false) {
            Some(v) => v,
            None => "0"@,
        },
        r.1@ == match message_value(*headers_msg, "X-Moesif-Gloo-ID"@, true) {
            Some(v) => v,
            None => Seq::<char>::empty(),
        },
{
    let (status, id) = match &headers_msg.headers {
        Some(hm) => (
            find_value(&hm.headers, ":status", false),
            find_value(&hm.headers, "X-Moesif-Gloo-ID", true),
        ),
        None => (None, None),
    };
    let status = match status {
        Some(s) => s,
        None => "0".to_string(),
    };
    let id = match id {
        Some(s) => s,
        None => String::new(),
    };
    (status, id)
}

/// Storing a header whose name differs, up to ASCII case, from `name` does
/// not change the value `name` names.
pub proof fn lemma_named_header_insert_other(
    ps: Seq<(Seq<char>, Seq<char>)>,
    k: Seq<char>,
    v: Seq<char>,
    name: Seq<char>,
)
    requires
        !eq_ignore_ascii_case_spec(k, name),
    ensures
        named_header(insert_spec(ps, k, v), name) == named_header(ps, name),
{
    assert(k != name) by {
        if k == name {
            assert(eq_ignore_ascii_case_spec(name, name));
        }
    }
    crate::map::law_get_after_insert(ps, k, v, name);
    lemma_find_header_insert_other(ps, k, v, name);
}

/// Whether some comma-separated piece of `v`, trimmed, is an IP address.
pub open spec fn holds_ip(v: Seq<char>) -> bool {
    exists|k: int|
        0 <= k < split_spec(v, ',').len() && is_ip_address(#[trigger] trim_spec(split_spec(v, ',')[k]))
}

proof fn lemma_first_ip(pieces: Seq<Seq<char>>)
    ensures
        first_ip(pieces) matches Some(ip) ==> is_ip_address(ip) && exists|k: int|
            0 <= k < pieces.len() && #[trigger] trim_spec(pieces[k]) == ip,
        first_ip(pieces) is None ==> forall|k: int|
            0 <= k < pieces.len() ==> !is_ip_address(#[trigger] trim_spec(pieces[k])),
    decreases pieces.len(),
{
    if pieces.len() > 0 {
        lemma_first_ip(pieces.drop_first());
        if first_ip(pieces) is Some && !is_ip_address(trim_spec(pieces[0])) {
            let ip = first_ip(pieces)->0;
            let k = choose|k: int| 0 <= k < pieces.drop_first().len() && #[trigger] trim_spec(pieces.drop_first()[k]) == ip;
            assert(trim_spec(pieces[k + 1]) == ip);
        }
        if first_ip(pieces) is None {
            assert forall|k: int| 0 <= k < pieces.len() implies !is_ip_address(#[trigger] trim_spec(pieces[k])) by {
                if k > 0 {
                    assert(pieces[k] == pieces.drop_first()[k - 1]);
                }
            }
        }
    }
}

proof fn lemma_client_ip_from(headers: Seq<(Seq<char>, Seq<char>)>, names: Seq<Seq<char>>)
    ensures
        client_ip_from(headers, names) matches Some(ip) ==> {
            &&& is_ip_address(ip)
            &&& exists|n: int, k: int|
                #![trigger names[n], split_spec(lookup(headers, names[n])->0, ',')[k]]
                0 <= n < names.len() && lookup(headers, names[n]) is Some && 0 <= k < split_spec(
                    lookup(headers, names[n])->0,
                    ',',
                ).len() && trim_spec(split_spec(lookup(headers, names[n])->0, ',')[k]) == ip
                    && forall|m: int| 0 <= m < n ==> !(lookup(headers, #[trigger] names[m]) matches Some(w) && holds_ip(w))
        },
        client_ip_from(headers, names) is None ==> forall|m: int|
            0 <= m < names.len() ==> !(lookup(headers, #[trigger] names[m]) matches Some(w) && holds_ip(w)),
    decreases names.len(),
{
    if names.len() > 0 {
        let rest = names.drop_first();
        lemma_client_ip_from(headers, rest);
        let here = match lookup(headers, names[0]) {
            Some(v) => first_ip(split_spec(v, ',')),
            None => None,
        };
        match lookup(headers, names[0]) {
            Some(v) => {
                lemma_first_ip(split_spec(v, ','));
                if here is None {
                    assert(!holds_ip(v));
                }
            },
            None => {},
        }
        if here is Some {
            let ip = here->0;
            let v = lookup(headers, names[0])->0;
            let k = choose|k: int| 0 <= k < split_spec(v, ',').len() && #[trigger] trim_spec(split_spec(v, ',')[k]) == ip;
            assert(names[0] == names[0] && split_spec(lookup(headers, names[0])->0, ',')[k] == split_spec(v, ',')[k]);
        } else {
            if client_ip_from(headers, names) is Some {
                let (n, k) = choose|n: int, k: int|
                    #![trigger rest[n], split_spec(lookup(headers, rest[n])->0, ',')[k]]
                    0 <= n < rest.len() && lookup(headers, rest[n]) is Some && 0 <= k < split_spec(
                        lookup(headers, rest[n])->0,
                        ',',
                    ).len() && trim_spec(split_spec(lookup(headers, rest[n])->0, ',')[k]) == client_ip_from(headers, names)->0
                        && forall|m: int| 0 <= m < n ==> !(lookup(headers, #[trigger] rest[m]) matches Some(w) && holds_ip(w));
                assert(names[n + 1] == rest[n]);
                assert forall|m: int| 0 <= m < n + 1 implies !(lookup(headers, #[trigger] names[m]) matches Some(w) && holds_ip(w)) by {
                    if m > 0 {
                        assert(names[m] == rest[m - 1]);
                    }
                }
                assert(split_spec(lookup(headers, names[n + 1])->0, ',')[k] == split_spec(lookup(headers, rest[n])->0, ',')[k]);
            } else {
                assert forall|m: int| 0 <= m < names.len() implies !(lookup(headers, #[trigger] names[m]) matches Some(w) && holds_ip(w)) by {
                    if m > 0 {
                        assert(names[m] == rest[m - 1]);
                    }
                }
            }
        }
    }
}

/// The client address is an IP address: a comma-separated piece, trimmed,
/// of the first forwarding header (in the order `client_ip_headers` lists
/// them) whose value holds one; no earlier listed header holds one. There is
/// no address exactly when no listed header holds one.
pub proof fn law_client_ip(headers: Seq<(Seq<char>, Seq<char>)>)
    ensures
        client_ip_spec(headers) matches Some(ip) ==> {
            &&& is_ip_address(ip)
            &&& exists|n: int, k: int|
                #![trigger client_ip_headers()[n], split_spec(lookup(headers, client_ip_headers()[n])->0, ',')[k]]
                0 <= n < client_ip_headers().len() && lookup(headers, client_ip_headers()[n]) is Some
                    && 0 <= k < split_spec(lookup(headers, client_ip_headers()[n])->0, ',').len()
                    && trim_spec(split_spec(lookup(headers, client_ip_headers()[n])->0, ',')[k]) == ip
                    && forall|m: int|
                    0 <= m < n ==> !(lookup(headers, #[trigger] client_ip_headers()[m]) matches Some(w)
                        && holds_ip(w))
        },
        client_ip_spec(headers) is None <==> forall|m: int|
            0 <= m < client_ip_headers().len() ==> !(lookup(headers, #[trigger] client_ip_headers()[m]) matches Some(w)
                && holds_ip(w)),
{
    lemma_client_ip_from(headers, client_ip_headers());
}

/// A header found by name, up to ASCII case, is the first pair whose name
/// matches; nothing is found exactly when no pair matches.
pub proof fn law_find_header(ps: Seq<(Seq<char>, Seq<char>)>, name: Seq<char>)
    ensures
        find_header(ps, name) matches Some(v) ==> exists|i: int|
            0 <= i < ps.len() && eq_ignore_ascii_case_spec(#[trigger] ps[i].0, name) && ps[i].1 == v
                && forall|j: int| 0 <= j < i ==> !eq_ignore_ascii_case_spec(#[trigger] ps[j].0, name),
        find_header(ps, name) is None <==> forall|i: int|
            0 <= i < ps.len() ==> !eq_ignore_ascii_case_spec(#[trigger] ps[i].0, name),
    decreases ps.len(),
{
    if ps.len() > 0 {
        let rest = ps.drop_first();
        law_find_header(rest, name);
        if !eq_ignore_ascii_case_spec(ps[0].0, name) {
            if find_header(ps, name) is Some {
                let i = choose|i: int|
                    0 <= i < rest.len() && eq_ignore_ascii_case_spec(#[trigger] rest[i].0, name) && rest[i].1
                        == find_header(ps, name)->0 && forall|j: int|
                        0 <= j < i ==> !eq_ignore_ascii_case_spec(#[trigger] rest[j].0, name);
                assert(ps[i + 1] == rest[i]);
                assert forall|j: int| 0 <= j < i + 1 implies !eq_ignore_ascii_case_spec(#[trigger] ps[j].0, name) by {
                    if j > 0 {
                        assert(ps[j] == rest[j - 1]);
                    }
                }
            } else {
                assert forall|i: int| 0 <= i < ps.len() implies !eq_ignore_ascii_case_spec(#[trigger] ps[i].0, name) by {
                    if i > 0 {
                        assert(ps[i] == rest[i - 1]);
                    }
                }
            }
        }
    }
}

} // verus!
