//! What the connection probe of an HTTP check decides: where to connect,
//! which connect and handshake times are reported, and the details recorded
//! for the server certificate.
use vstd::prelude::*;
use vstd::string::*;
use crate::external::{unix_now_ms, url_components, url_parts, x509_decode, x509_fields};
use crate::text::str_eq;
use crate::tools_types::CertificateInfo;

verus! {

/// The fields of a decoded X.509 certificate, as plain values: names and
/// dates as text, the expiry as Unix seconds, and the size of the public key
/// in bytes.
pub struct X509Fields {
    pub issuer: String,
    pub subject: String,
    pub not_before_text: String,
    pub not_after_text: String,
    pub not_after_unix_s: i64,
    pub serial: String,
    pub signature_algorithm: String,
    pub public_key_algorithm: String,
    pub public_key_bytes: usize,
}

/// The fields of a decoded certificate, texts taken by their characters.
pub struct X509FieldsView {
    pub issuer: Seq<char>,
    pub subject: Seq<char>,
    pub not_before_text: Seq<char>,
    pub not_after_text: Seq<char>,
    pub not_after_unix_s: i64,
    pub serial: Seq<char>,
    pub signature_algorithm: Seq<char>,
    pub public_key_algorithm: Seq<char>,
    pub public_key_bytes: usize,
}

impl View for X509Fields {
    type V = X509FieldsView;

    open spec fn view(&self) -> X509FieldsView {
        X509FieldsView {
            issuer: self.issuer@,
            subject: self.subject@,
            not_before_text: self.not_before_text@,
            not_after_text: self.not_after_text@,
            not_after_unix_s: self.not_after_unix_s,
            serial: self.serial@,
            signature_algorithm: self.signature_algorithm@,
            public_key_algorithm: self.public_key_algorithm@,
            public_key_bytes: self.public_key_bytes,
        }
    }
}

/// Whether a certificate expiring at `not_after_unix_s` is still valid at
/// `now_unix_ms`: at least one whole day remains before it expires.
pub open spec fn valid_for_a_day(not_after_unix_s: i64, now_unix_ms: u128) -> bool {
    not_after_unix_s * 1000 - now_unix_ms >= 86400000
}

/// A public key of this many bytes has a bit size that fits in `usize`.
pub open spec fn key_size_fits(public_key_bytes: usize) -> bool {
    public_key_bytes * 8 <= usize::MAX
}

/// `c` records the certificate `f` as seen at `now_unix_ms`.
pub open spec fn certificate_record_of(c: CertificateInfo, f: X509FieldsView, now_unix_ms: u128) -> bool {
    &&& c.issuer matches Some(t) && t@ == f.issuer
    &&& c.subject matches Some(t) && t@ == f.subject
    &&& c.valid_from matches Some(t) && t@ == f.not_before_text
    &&& c.valid_until matches Some(t) && t@ == f.not_after_text
    &&& c.serial_number matches Some(t) && t@ == f.serial
    &&& c.signature_algorithm matches Some(t) && t@ == f.signature_algorithm
    &&& c.public_key_algorithm matches Some(t) && t@ == f.public_key_algorithm
    &&& c.public_key_size == Some((f.public_key_bytes * 8) as usize)
    &&& c.is_valid == valid_for_a_day(f.not_after_unix_s, now_unix_ms)
}

/// The certificate details recorded for decoded fields at a given time.
pub fn certificate_info_of(f: X509Fields, now_unix_ms: u128) -> (c: CertificateInfo)
    requires
        key_size_fits(f.public_key_bytes),
    ensures
        certificate_record_of(c, f@, now_unix_ms),
{
    let after_ms: i128 = f.not_after_unix_s as i128 * 1000;
    let is_valid = if after_ms < 86400000 {
        false
    } else {
        now_unix_ms <= (after_ms - 86400000) as u128
    };
    CertificateInfo {
        issuer: Some(f.issuer),
        subject: Some(f.subject),
        valid_from: Some(f.not_before_text),
        valid_until: Some(f.not_after_text),
        serial_number: Some(f.serial),
        signature_algorithm: Some(f.signature_algorithm),
        public_key_algorithm: Some(f.public_key_algorithm),
        public_key_size: Some(f.public_key_bytes * 8),
        is_valid,
    }
}

/// Decodes a DER certificate and records its details as of the current
/// wall-clock time; `None` when it does not decode, or when its key size in
/// bits would not fit in `usize`.
pub fn certificate_info(der: &[u8]) -> (r: Option<CertificateInfo>)
    ensures
        r is Some <==> (x509_fields(der@) matches Some(f) && key_size_fits(f.public_key_bytes)),
        r matches Some(c) ==> exists|now: u128| #[trigger] certificate_record_of(c, x509_fields(der@)->0, now),
{
    match x509_decode(der) {
        None => None,
        Some(f) => {
            if f.public_key_bytes > usize::MAX / 8 {
                None
            } else {
                let now = unix_now_ms();
                let ghost v = f@;
                assert(x509_fields(der@)->0 == v);
                let c = certificate_info_of(f, now);
                assert(certificate_record_of(c, x509_fields(der@)->0, now));
                Some(c)
            }
        },
    }
}

/// Where a probe connects for a URL: the host, the port (the scheme's known
/// default when none is written, 80 when the scheme has none) and whether
/// the scheme is `https`; `None` when the URL does not parse or has no host.
pub open spec fn probe_target_of(url: Seq<char>) -> Option<(Seq<char>, u16, bool)> {
    match url_parts(url) {
        None => None,
        Some(p) => match p.0 {
            None => None,
            Some(host) => Some((host, match p.1 { Some(port) => port, None => 80u16 }, p.2 == "https"@)),
        },
    }
}

pub fn probe_target(url: &str) -> (r: Option<(String, u16, bool)>)
    ensures
        r is Some <==> probe_target_of(url@) is Some,
        r matches Some(t) ==> probe_target_of(url@) == Some((t.0@, t.1, t.2)),
{
    match url_components(url) {
        None => None,
        Some((host, port, scheme)) => match host {
            None => None,
            Some(h) => {
                let p: u16 = match port {
                    Some(x) => x,
                    None => 80,
                };
                let is_https = str_eq(scheme.as_str(), "https");
                Some((h, p, is_https))
            },
        },
    }
}

/// The smaller of the fastest time so far and a new measurement.
pub open spec fn min_time(best: Option<u128>, ms: u128) -> u128 {
    match best {
        Some(b) => if ms < b { ms } else { b },
        None => ms,
    }
}

/// Keeps the fastest of the measurements: the first one, then the smaller.
pub fn fastest(best: Option<u128>, ms: u128) -> (r: Option<u128>)
    ensures
        r == Some(min_time(best, ms)),
{
    match best {
        Some(b) => if ms < b { Some(ms) } else { Some(b) },
        None => Some(ms),
    }
}

/// The times a probe reports: the DNS time, the fastest TCP connect and,
/// for `https`, the fastest TLS handshake (0 when none succeeded; always 0
/// otherwise), with the certificate read; `None` when no TCP connect
/// succeeded.
pub fn probe_outcome(
    dns_ms: u128,
    tcp_best: Option<u128>,
    tls_best: Option<u128>,
    is_https: bool,
    certificate: Option<CertificateInfo>,
) -> (r: Option<(u128, u128, u128, Option<CertificateInfo>)>)
    ensures
        r is Some <==> tcp_best is Some,
        r matches Some(o) ==> {
            &&& o.0 == dns_ms
            &&& o.1 == tcp_best->0
            &&& o.2 == if is_https { match tls_best { Some(t) => t, None => 0 } } else { 0 }
            &&& o.3 == certificate
        },
{
    match tcp_best {
        None => None,
        Some(tcp) => {
            let tls: u128 = if is_https {
                match tls_best {
                    Some(t) => t,
                    None => 0,
                }
            } else {
                0
            };
            Some((dns_ms, tcp, tls, certificate))
        },
    }
}

} // verus!
