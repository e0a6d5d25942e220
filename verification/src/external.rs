//! The calls this library makes into outside crates (regex, uuid, chrono,
//! base64, serde_json) and into `core::net`, each behind a contract that
//! states what the called code does.

use vstd::prelude::*;
use base64::Engine;

verus! {

// ---------------------------------------------------------------------------
// regex
// ---------------------------------------------------------------------------

/// Whether `regex::Regex::new` accepts `pattern`.
pub uninterp spec fn regex_compiles(pattern: Seq<char>) -> bool;

/// What `regex::Regex::is_match` answers for the regex built from `pattern`
/// and the text `haystack`.
pub uninterp spec fn regex_is_match(pattern: Seq<char>, haystack: Seq<char>) -> bool;

/// Builds the regex with `regex::Regex::new(pattern)` and, when that
/// succeeds, asks `Regex::is_match(haystack)`. `None` when the pattern is
/// refused. Both outcomes are functions of the pattern and the text alone;
/// the regex syntax and matching rules are not restated.
#[verifier::external_body]
pub fn regex_search(pattern: &str, haystack: &str) -> (r: Option<bool>)
    ensures
        (r is Some) == regex_compiles(pattern@),
        r matches Some(b) ==> b == regex_is_match(pattern@, haystack@),
{
    match regex::Regex::new(pattern) {
        Ok(re) => Some(re.is_match(haystack)),
        Err(_) => None,
    }
}

// ---------------------------------------------------------------------------
// uuid
// ---------------------------------------------------------------------------

pub open spec fn is_lower_hex_digit(c: char) -> bool {
    ('0' <= c && c <= '9') || ('a' <= c && c <= 'f')
}

/// The shape of the hyphenated lower-case text of a version-4 UUID:
/// 36 characters, hyphens at 8, 13, 18 and 23, hex digits elsewhere, the
/// version digit `4` at 14 and a variant digit among `8 9 a b` at 19.
pub open spec fn is_v4_uuid_text(s: Seq<char>) -> bool {
    &&& s.len() == 36
    &&& forall|i: int|
        0 <= i < 36 ==> if i == 8 || i == 13 || i == 18 || i == 23 {
            #[trigger] s[i] == '-'
        } else {
            is_lower_hex_digit(s[i])
        }
    &&& s[14] == '4'
    &&& (s[19] == '8' || s[19] == '9' || s[19] == 'a' || s[19] == 'b')
}

/// `uuid::Uuid::new_v4().to_string()`: a random version-4 UUID in its
/// hyphenated lower-case form (`Display` writes `as_hyphenated`, and
/// `new_v4` sets the version and variant bits). Which UUID comes back is left
/// open: it is random.
#[verifier::external_body]
pub fn new_uuid_v4() -> (r: String)
    ensures
        is_v4_uuid_text(r@),
{
    uuid::Uuid::new_v4().to_string()
}

// ---------------------------------------------------------------------------
// chrono
// ---------------------------------------------------------------------------

/// `chrono::Utc::now().to_rfc3339()`: the current time as RFC 3339 text,
/// text that `str::parse::<DateTime<Utc>>` reads back (`to_rfc3339` writes
/// the date, the time with `T` between, and the offset `+00:00`; the clock
/// gives no leap second, and a year past 9999 is written with its sign,
/// which the parser accepts). Which time it is is not stated: it reads the
/// clock.
#[verifier::external_body]
pub fn now_rfc3339() -> (r: String)
    ensures
        rfc3339_instant(r@) is Some,
{
    chrono::Utc::now().to_rfc3339()
}

/// `chrono::Utc::now()`, as its `timestamp()` (whole seconds since the Unix
/// epoch) and `timestamp_subsec_nanos()`. Only the documented range of the
/// nanoseconds is stated (below two billion, leap seconds included); the
/// instant itself comes from the clock.
#[verifier::external_body]
pub fn now_instant() -> (r: (i64, u32))
    ensures
        r.1 < 2_000_000_000,
{
    let now = chrono::Utc::now();
    (now.timestamp(), now.timestamp_subsec_nanos())
}

/// The instant that `str::parse::<chrono::DateTime<chrono::Utc>>` reads from
/// `s`, as (seconds since the epoch, nanoseconds), or `None` when it refuses
/// the text.
pub uninterp spec fn rfc3339_instant(s: Seq<char>) -> Option<(i64, u32)>;

/// `s.parse::<chrono::DateTime<chrono::Utc>>()` (relaxed RFC 3339), given as
/// `timestamp()` and `timestamp_subsec_nanos()`. The accepted grammar is not
/// restated: the result is named by `rfc3339_instant`.
#[verifier::external_body]
pub fn parse_instant(s: &str) -> (r: Option<(i64, u32)>)
    ensures
        r == rfc3339_instant(s@),
{
    match s.parse::<chrono::DateTime<chrono::Utc>>() {
        Ok(d) => Some((d.timestamp(), d.timestamp_subsec_nanos())),
        Err(_) => None,
    }
}

// ---------------------------------------------------------------------------
// base64
// ---------------------------------------------------------------------------

/// The character of the standard base64 alphabet (RFC 4648, table 1) for a
/// six-bit value.
pub open spec fn base64_char(v: int) -> char {
    if v < 26 {
        (65 + v) as char
    } else if v < 52 {
        (97 + (v - 26)) as char
    } else if v < 62 {
        (48 + (v - 52)) as char
    } else if v == 62 {
        '+'
    } else {
        '/'
    }
}

/// Standard base64 with `=` padding: each group of three bytes becomes four
/// characters; a final group of one or two bytes is padded.
pub open spec fn base64_spec(b: Seq<u8>) -> Seq<char>
    decreases b.len(),
{
    let x0 = b[0] as int;
    let x1 = b[1] as int;
    let x2 = b[2] as int;
    if b.len() == 0 {
        Seq::empty()
    } else if b.len() == 1 {
        seq![base64_char(x0 / 4), base64_char((x0 % 4) * 16), '=', '=']
    } else if b.len() == 2 {
        seq![
            base64_char(x0 / 4),
            base64_char((x0 % 4) * 16 + x1 / 16),
            base64_char((x1 % 16) * 4),
            '=',
        ]
    } else {
        seq![
            base64_char(x0 / 4),
            base64_char((x0 % 4) * 16 + x1 / 16),
            base64_char((x1 % 16) * 4 + x2 / 64),
            base64_char(x2 % 64),
        ] + base64_spec(b.skip(3))
    }
}

/// `base64::engine::general_purpose::STANDARD.encode(bytes)`: the standard
/// alphabet with padding, as the crate documents `STANDARD`.
#[verifier::external_body]
pub fn base64_encode(bytes: &[u8]) -> (r: String)
    ensures
        r@ == base64_spec(bytes@),
{
    base64::engine::general_purpose::STANDARD.encode(bytes)
}

// ---------------------------------------------------------------------------
// serde_json
// ---------------------------------------------------------------------------

/// Whether `serde_json::from_slice::<serde_json::Value>` accepts the bytes.
pub uninterp spec fn is_json(bytes: Seq<u8>) -> bool;

/// `serde_json::from_slice::<serde_json::Value>(bytes).is_ok()`: whether the
/// bytes are one JSON document. The JSON grammar is not restated.
#[verifier::external_body]
pub fn parses_as_json(bytes: &[u8]) -> (b: bool)
    ensures
        b == is_json(bytes@),
{
    serde_json::from_slice::<serde_json::Value>(bytes).is_ok()
}

// ---------------------------------------------------------------------------
// core::net
// ---------------------------------------------------------------------------

/// Whether `IpAddr::from_str` accepts `s` (an IPv4 or IPv6 address).
pub uninterp spec fn is_ip_address(s: Seq<char>) -> bool;

/// `core::net::IpAddr::from_str(s).is_ok()`. The address grammar is not
/// restated: the answer is named by `is_ip_address`.
#[verifier::external_body]
pub fn parses_as_ip(s: &str) -> (b: bool)
    ensures
        b == is_ip_address(s@),
{
    s.parse::<core::net::IpAddr>().is_ok()
}

} // verus!
