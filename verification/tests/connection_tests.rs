use point_monitor::connection::{certificate_info, certificate_info_of, fastest, probe_outcome, probe_target, X509Fields};
use point_monitor::tools_types::CertificateInfo;

fn fields(not_after_unix_s: i64, key_bytes: usize) -> X509Fields {
    X509Fields {
        issuer: "CN=Issuer".to_string(),
        subject: "CN=example.com".to_string(),
        not_before_text: "2024-01-01 0:00:00.0 +00:00:00".to_string(),
        not_after_text: "2025-01-01 0:00:00.0 +00:00:00".to_string(),
        not_after_unix_s,
        serial: "1234".to_string(),
        signature_algorithm: "1.2.840.113549.1.1.11".to_string(),
        public_key_algorithm: "AlgorithmIdentifier".to_string(),
        public_key_bytes: key_bytes,
    }
}

#[test]
fn certificate_details_are_recorded() {
    let c = certificate_info_of(fields(1_000_000, 270), 0);
    assert_eq!(c.issuer.as_deref(), Some("CN=Issuer"));
    assert_eq!(c.subject.as_deref(), Some("CN=example.com"));
    assert_eq!(c.valid_from.as_deref(), Some("2024-01-01 0:00:00.0 +00:00:00"));
    assert_eq!(c.valid_until.as_deref(), Some("2025-01-01 0:00:00.0 +00:00:00"));
    assert_eq!(c.serial_number.as_deref(), Some("1234"));
    assert_eq!(c.signature_algorithm.as_deref(), Some("1.2.840.113549.1.1.11"));
    assert_eq!(c.public_key_algorithm.as_deref(), Some("AlgorithmIdentifier"));
    assert_eq!(c.public_key_size, Some(2160));
    assert!(c.is_valid);
}

#[test]
fn a_certificate_is_valid_while_a_whole_day_remains() {
    // expires at 100_000 s; a day is 86_400_000 ms
    assert!(certificate_info_of(fields(100_000, 1), 13_600_000).is_valid);
    assert!(!certificate_info_of(fields(100_000, 1), 13_600_001).is_valid);
    assert!(!certificate_info_of(fields(-5, 1), 0).is_valid);
    assert!(!certificate_info_of(fields(1, 1), u128::MAX).is_valid);
}

#[test]
fn bytes_that_are_no_certificate_give_nothing() {
    assert!(certificate_info(&[]).is_none());
    assert!(certificate_info(&[0x30, 0x03, 0x01, 0x01, 0xff]).is_none());
}

#[test]
fn probe_targets_come_from_the_url() {
    assert_eq!(probe_target("https://example.com/x"), Some(("example.com".to_string(), 443, true)));
    assert_eq!(probe_target("http://example.com:8080"), Some(("example.com".to_string(), 8080, false)));
    // no known default port for this scheme
    assert_eq!(probe_target("foo://example.com/"), Some(("example.com".to_string(), 80, false)));
    // a URL without a host
    assert_eq!(probe_target("mailto:someone@example.com"), None);
    assert_eq!(probe_target("not a url"), None);
}

#[test]
fn the_fastest_time_is_kept() {
    assert_eq!(fastest(None, 30), Some(30));
    assert_eq!(fastest(Some(30), 12), Some(12));
    assert_eq!(fastest(Some(12), 40), Some(12));
}

#[test]
fn probe_outcome_needs_a_tcp_connect() {
    assert!(probe_outcome(5, None, Some(3), true, None).is_none());
    let r = probe_outcome(5, Some(7), Some(3), true, None).expect("connected");
    assert_eq!((r.0, r.1, r.2), (5, 7, 3));
    let r = probe_outcome(5, Some(7), None, true, None).expect("connected");
    assert_eq!(r.2, 0);
    let r = probe_outcome(5, Some(7), Some(3), false, Some(CertificateInfo::default())).expect("connected");
    assert_eq!(r.2, 0);
    assert!(r.3.is_some());
}
