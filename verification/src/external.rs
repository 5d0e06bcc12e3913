//! Trusted boundary: the outside types and calls that the verified logic
//! relies on. Every item here is believed by Verus without proof; each doc
//! comment says what is claimed of the outside code.
use vstd::prelude::*;
use chrono::Timelike;
use vstd::string::StringSliceAdditionalSpecFns;
use crate::connection::{X509Fields, X509FieldsView};

verus! {

/// The JSON value type of `serde_json`, carried through unchanged: the
/// verified code never looks inside it.
#[verifier::external_type_specification]
#[verifier::external_body]
pub struct ExJsonValue(serde_json::Value);

} // verus!

verus! {

/// Hour of the day (UTC) of a millisecond Unix timestamp, counted the way
/// `chrono` splits a timestamp: Euclidean division into seconds, then into
/// days.
pub open spec fn hour_of_millis(ms: int) -> int {
    ((ms / 1000) % 86400) / 3600
}

/// Whether `chrono::DateTime::<Utc>::from_timestamp_millis` accepts the
/// timestamp (it refuses instants beyond the range of its calendar).
pub uninterp spec fn utc_millis_representable(ms: i64) -> bool;

/// What `DateTime::<Utc>::format("%Y-%m-%d %H:%M:%S")` prints for a
/// representable millisecond timestamp.
pub uninterp spec fn utc_formatted_millis(ms: i64) -> Seq<char>;

/// Calls `chrono::DateTime::<Utc>::from_timestamp_millis(ms)` and reads the
/// hour. Claimed: the result is `Some` exactly when chrono accepts the
/// timestamp, which it does at least for every timestamp within about
/// 253,000 years of the epoch; the hour is the Euclidean hour of the day that
/// chrono's `from_timestamp` computes.
#[verifier::external_body]
pub fn utc_hour_of_millis(ms: i64) -> (r: Option<u32>)
    ensures
        r is Some <==> utc_millis_representable(ms),
        -8_000_000_000_000_000 <= ms <= 8_000_000_000_000_000 ==> r is Some,
        r matches Some(h) ==> h == hour_of_millis(ms as int),
{
    chrono::DateTime::<chrono::Utc>::from_timestamp_millis(ms).map(|dt| dt.hour())
}

/// Calls `chrono::DateTime::<Utc>::from_timestamp_millis(ms)` and formats the
/// instant as `%Y-%m-%d %H:%M:%S`. Claimed: `Some` exactly when chrono accepts
/// the timestamp, and the text is the named formatting of it.
#[verifier::external_body]
pub fn utc_format_millis(ms: i64) -> (r: Option<String>)
    ensures
        r is Some <==> utc_millis_representable(ms),
        r matches Some(s) ==> s@ == utc_formatted_millis(ms),
{
    chrono::DateTime::<chrono::Utc>::from_timestamp_millis(ms)
        .map(|dt| dt.format("%Y-%m-%d %H:%M:%S").to_string())
}

/// Builds `ua_parser`'s device extractor with `Builder::new().build()` and
/// extracts the device family of `ua`. Claimed, as the crate's source shows:
/// a builder made by `Builder::new()` holds no device parsers; building it
/// compiles an empty prefilter, which cannot fail (the prefilter only fails
/// on too many patterns or states); and an extractor without parsers matches
/// no user agent. So the build succeeds and nothing is extracted, whatever
/// `ua` is.
#[verifier::external_body]
pub fn ua_extract_device(ua: &str) -> (r: Option<Option<String>>)
    ensures
        r is Some,
        r->0 is None,
{
    match ua_parser::device::Builder::new().build() {
        Ok(extractor) => Some(extractor.extract(ua).map(|d| d.into_owned().device)),
        Err(_) => None,
    }
}

} // verus!

verus! {

/// The lowercase form of a text as `str::to_lowercase` computes it.
pub uninterp spec fn lowercase_text(s: Seq<char>) -> Seq<char>;

/// Calls `str::to_lowercase`. Claimed: the result is the lowercase form of
/// the text, which depends on the text alone.
#[verifier::external_body]
pub fn to_lowercase(s: &str) -> (r: String)
    ensures
        r@ == lowercase_text(s@),
{
    s.to_lowercase()
}

} // verus!

verus! {

/// Calls `uuid::Uuid::new_v4()` and reads it as a number. The identifier is
/// random; nothing is claimed of its value.
#[verifier::external_body]
pub fn random_uuid_u128() -> u128 {
    uuid::Uuid::new_v4().as_u128()
}

/// A lowercase hexadecimal digit.
pub open spec fn lower_hex_digit(c: char) -> bool {
    ('0' <= c && c <= '9') || ('a' <= c && c <= 'f')
}

/// The hyphenated text of a random (version 4, RFC 4122 variant) UUID:
/// 36 characters, hyphens at 8, 13, 18 and 23, lowercase hexadecimal digits
/// elsewhere, the version digit `4` at 14 and a variant digit of 8, 9, a or
/// b at 19.
pub open spec fn is_v4_uuid_text(s: Seq<char>) -> bool {
    &&& s.len() == 36
    &&& forall|i: int| 0 <= i < 36 ==> if i == 8 || i == 13 || i == 18 || i == 23 {
        #[trigger] s[i] == '-'
    } else {
        lower_hex_digit(s[i])
    }
    &&& s[14] == '4'
    &&& (s[19] == '8' || s[19] == '9' || s[19] == 'a' || s[19] == 'b')
}

/// Calls `uuid::Uuid::new_v4()` and renders it in its hyphenated text form.
/// The identifier is random: only its form is claimed. `new_v4` masks in
/// the version and variant bits, and `Display` writes the hyphenated
/// lowercase form.
#[verifier::external_body]
pub fn random_uuid_text() -> (r: String)
    ensures
        is_v4_uuid_text(r@),
{
    uuid::Uuid::new_v4().to_string()
}

/// Whether `regex::Regex::new` accepts a pattern.
pub uninterp spec fn regex_compiles(pattern: Seq<char>) -> bool;

/// Whether the compiled pattern finds a match somewhere in the text.
pub uninterp spec fn regex_finds(pattern: Seq<char>, text: Seq<char>) -> bool;

/// Calls `regex::Regex::new(pattern)`. Claimed: the answer is whether the
/// pattern compiles, which depends on the pattern alone.
#[verifier::external_body]
pub fn regex_is_valid(pattern: &str) -> (r: bool)
    ensures
        r == regex_compiles(pattern@),
{
    regex::Regex::new(pattern).is_ok()
}

/// Calls `regex::Regex::new(pattern)` and `Regex::is_match(text)`. Requires a
/// pattern that compiles (the call would panic on the `unwrap` otherwise).
/// Claimed: the answer depends on the pattern and the text alone.
#[verifier::external_body]
pub fn regex_is_match(pattern: &str, text: &str) -> (r: bool)
    requires
        regex_compiles(pattern@),
    ensures
        r == regex_finds(pattern@, text@),
{
    regex::Regex::new(pattern).unwrap().is_match(text)
}

/// A byte that `http::HeaderValue` accepts: visible ASCII, any byte of a
/// multi-byte character, or a horizontal tab.
pub open spec fn header_value_byte(b: u8) -> bool {
    (b >= 32 && b != 127) || b == 9
}

/// Calls `http::HeaderValue::from_str` (through `reqwest::header`). Claimed,
/// as its source shows: it accepts exactly the texts whose UTF-8 bytes are
/// all accepted header-value bytes.
#[verifier::external_body]
pub fn header_value_parses(value: &str) -> (r: bool)
    ensures
        r == forall|i: int| 0 <= i < value.spec_bytes().len() ==> header_value_byte(#[trigger] value.spec_bytes()[i]),
{
    reqwest::header::HeaderValue::from_str(value).is_ok()
}

/// A character that `http::HeaderName` accepts in a name: a token character
/// of RFC 7230 (ASCII letters and digits and ``!#$%&'*+-.^_`|~``).
pub open spec fn header_name_char(c: char) -> bool {
    ||| ('a' <= c && c <= 'z')
    ||| ('A' <= c && c <= 'Z')
    ||| ('0' <= c && c <= '9')
    ||| c == '!' || c == '#' || c == '$' || c == '%' || c == '&' || c == '\'' || c == '*'
    ||| c == '+' || c == '-' || c == '.' || c == '^' || c == '_' || c == '`' || c == '|' || c == '~'
}

/// Whether `http::HeaderName` parses a text as a header name: it is not
/// empty, at most 65535 bytes long, and made of token characters.
pub open spec fn header_name_valid(name: Seq<char>) -> bool {
    &&& 1 <= name.len() <= 65535
    &&& forall|i: int| 0 <= i < name.len() ==> header_name_char(#[trigger] name[i])
}

/// A character with ASCII upper case turned to lower case.
pub open spec fn ascii_lower(c: char) -> char {
    if 'A' <= c && c <= 'Z' {
        ((c as u32) + 32) as char
    } else {
        c
    }
}

/// The text of a header name as `http::HeaderName` stores it: ASCII
/// letters in lower case.
pub open spec fn header_name_text(name: Seq<char>) -> Seq<char> {
    name.map_values(|c: char| ascii_lower(c))
}

/// Calls `str::parse::<http::HeaderName>()` (through `reqwest::header`) and
/// reads the parsed name. Claimed, as its source shows: it accepts exactly
/// the non-empty names of at most 65535 token characters, and stores them
/// with ASCII letters lowered.
#[verifier::external_body]
pub fn header_name_parse(name: &str) -> (r: Option<String>)
    ensures
        r is Some <==> header_name_valid(name@),
        r matches Some(t) ==> t@ == header_name_text(name@),
{
    match name.parse::<reqwest::header::HeaderName>() {
        Ok(h) => Some(h.as_str().to_string()),
        Err(_) => None,
    }
}

/// What `url::Url::parse` makes of a text: `None` when it refuses it;
/// otherwise the host text (when the URL has one), the port written or the
/// scheme's known default port (when there is one), and the scheme.
pub uninterp spec fn url_parts(text: Seq<char>) -> Option<(Option<Seq<char>>, Option<u16>, Seq<char>)>;

/// Whether `url::Url::parse` accepts a text as an absolute URL.
pub open spec fn url_valid(text: Seq<char>) -> bool {
    url_parts(text) is Some
}

/// Calls `reqwest::Url::parse` (the `url` crate's parser) and reads
/// `host_str`, `port_or_known_default` and `scheme`. Claimed: the answer
/// depends on the text alone.
#[verifier::external_body]
pub fn url_components(text: &str) -> (r: Option<(Option<String>, Option<u16>, String)>)
    ensures
        r is Some <==> url_parts(text@) is Some,
        r matches Some(p) ==> url_parts(text@) == Some((match p.0 { Some(h) => Some(h@), None => None }, p.1, p.2@)),
{
    match reqwest::Url::parse(text) {
        Ok(u) => Some((match u.host_str() { Some(h) => Some(h.to_string()), None => None }, u.port_or_known_default(), u.scheme().to_string())),
        Err(_) => None,
    }
}

/// What `x509_parser::parse_x509_certificate` decodes from DER bytes, read
/// field by field: `None` when the bytes are not a certificate.
pub uninterp spec fn x509_fields(der: Seq<u8>) -> Option<X509FieldsView>;

/// Calls `x509_parser::parse_x509_certificate` and reads the issuer and
/// subject names, the validity dates (as text, and the expiry as Unix
/// seconds), the serial number, the signature algorithm, the public key
/// algorithm (`Debug` form) and the public key's length in bytes. Claimed:
/// the result depends on the bytes alone.
#[verifier::external_body]
pub fn x509_decode(der: &[u8]) -> (r: Option<X509Fields>)
    ensures
        r is Some <==> x509_fields(der@) is Some,
        r matches Some(f) ==> x509_fields(der@) == Some(f@),
{
    match x509_parser::parse_x509_certificate(der) {
        Ok((_, c)) => Some(X509Fields {
            issuer: c.issuer().to_string(),
            subject: c.subject().to_string(),
            not_before_text: c.validity().not_before.to_datetime().to_string(),
            not_after_text: c.validity().not_after.to_datetime().to_string(),
            not_after_unix_s: c.validity().not_after.timestamp(),
            serial: c.tbs_certificate.serial.to_string(),
            signature_algorithm: c.signature_algorithm.algorithm.to_string(),
            public_key_algorithm: format!("{:?}", c.public_key().algorithm),
            public_key_bytes: c.public_key().subject_public_key.data.len(),
        }),
        Err(_) => None,
    }
}

/// The `Debug` rendering of a text: quoted, with quotes, backslashes and
/// control characters escaped.
pub uninterp spec fn debug_text(s: Seq<char>) -> Seq<char>;

/// Renders a text with `format!("{:?}", ..)`. Claimed: the rendering depends
/// on the text alone.
#[verifier::external_body]
pub fn debug_quoted(s: &str) -> (r: String)
    ensures
        r@ == debug_text(s@),
{
    format!("{:?}", s)
}

/// Reads the system clock through `SystemTime::now()` as milliseconds since
/// the Unix epoch (0 for a clock set before the epoch). The clock is outside
/// the program: nothing is claimed of the value.
#[verifier::external_body]
pub fn unix_now_ms() -> u128 {
    std::time::SystemTime::now()
        .duration_since(std::time::UNIX_EPOCH)
        .unwrap_or_default()
        .as_millis()
}

/// The timestamp type of `chrono`, carried through unchanged.
#[verifier::external_type_specification]
#[verifier::external_body]
pub struct ExNaiveDateTime(chrono::NaiveDateTime);

} // verus!
