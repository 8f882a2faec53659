use lanjing::effect::{EffectFailure, HttpEffectErrorKind, QuickJsErrorKind};
use lanjing::ip_text::is_ip_address_text;
use lanjing::model::{EffectKind, HttpMethod};
use lanjing::witness::{
    effect_bytes_hash, quickjs_script_hash, safe_header_name, sensitive_header_name, validate_hash,
    validate_safe_http_url, EffectCaptureMaterial, EffectCaptureMaterialSensitivity, EffectWitness,
    EffectWitnessError, ExtractEffectWitness, HttpDnsTargetKind, HttpDnsTargetWitness, HttpEffectWitness,
    HttpRedirectWitness, HttpRequestBodyWitness, HttpRequestHeaderWitness, HttpRequestWitness, QuickJsEffectWitness,
    QuickJsHostCall, QuickJsHostCallWitness,
};

fn hash() -> String {
    "a".repeat(64)
}

fn http_witness() -> HttpEffectWitness {
    HttpEffectWitness {
        request: HttpRequestWitness {
            method: HttpMethod::Get,
            safe_url: "https://example.com/search".to_string(),
            headers: vec![HttpRequestHeaderWitness { name: "accept".to_string(), value_hash: hash() }],
            body: Some(HttpRequestBodyWitness { hash: hash(), byte_len: 3 }),
        },
        redirects: vec![HttpRedirectWitness {
            status: 302,
            from_url: "https://example.com/a".to_string(),
            to_url: "https://example.com/b".to_string(),
        }],
        dns_targets: vec![HttpDnsTargetWitness {
            host: "example.com".to_string(),
            addresses: vec!["93.184.216.34".to_string(), "2606:2800:220:1::".to_string()],
            kind: HttpDnsTargetKind::PinnedDns,
        }],
        error: None,
        duration_ms: 12,
    }
}

#[test]
fn hash_check_accepts_64_hex_digits_only() {
    assert_eq!(validate_hash(&"0123456789abcdefABCDEF".repeat(3)[..64]), Ok(()));
    assert_eq!(validate_hash(&"a".repeat(63)), Err(EffectWitnessError::InvalidHash));
    assert_eq!(validate_hash(&"g".repeat(64)), Err(EffectWitnessError::InvalidHash));
    assert_eq!(validate_hash(""), Err(EffectWitnessError::InvalidHash));
}

#[test]
fn bytes_hash_is_blake3_hex() {
    let h = effect_bytes_hash(b"abc");
    assert_eq!(h, "6437b3ac38465133ffb63b75273a8db548c558465d79db03fd359c6cd5bd9d85");
    assert_eq!(validate_hash(&h), Ok(()));
    assert_ne!(effect_bytes_hash(b"abd"), h);
    assert_eq!(quickjs_script_hash("abc"), h);
}

#[test]
fn safe_url_rules() {
    assert_eq!(validate_safe_http_url("http://example.com/a/b"), Ok(()));
    assert_eq!(validate_safe_http_url("https://example.com"), Ok(()));
    assert_eq!(validate_safe_http_url("https://example.com:8443/x"), Ok(()));
    assert_eq!(validate_safe_http_url("ftp://example.com/"), Err(EffectWitnessError::UnsafeHttpUrl));
    assert_eq!(validate_safe_http_url("https://user@example.com/"), Err(EffectWitnessError::UnsafeHttpUrl));
    assert_eq!(validate_safe_http_url("https://example.com/?q=1"), Err(EffectWitnessError::UnsafeHttpUrl));
    assert_eq!(validate_safe_http_url("https://example.com/#f"), Err(EffectWitnessError::UnsafeHttpUrl));
    assert_eq!(validate_safe_http_url("https:///path"), Err(EffectWitnessError::UnsafeHttpUrl));
    assert_eq!(validate_safe_http_url("example.com/path"), Err(EffectWitnessError::UnsafeHttpUrl));
    assert_eq!(validate_safe_http_url("https://example.com/a@b"), Ok(()));
}

#[test]
fn header_name_rules() {
    assert!(safe_header_name("x-request-id"));
    assert!(!safe_header_name(""));
    assert!(!safe_header_name("bad name"));
    assert!(sensitive_header_name("Authorization"));
    assert!(sensitive_header_name("COOKIE"));
    assert!(sensitive_header_name("Set-Cookie"));
    assert!(sensitive_header_name("proxy-authorization"));
    assert!(sensitive_header_name("X-Auth-Token"));
    assert!(sensitive_header_name("x-client-secret"));
    assert!(sensitive_header_name("X-API-KEY"));
    assert!(!sensitive_header_name("accept"));
}

#[test]
fn ip_text_forms() {
    assert!(is_ip_address_text("127.0.0.1"));
    assert!(is_ip_address_text("255.255.255.255"));
    assert!(!is_ip_address_text("256.0.0.1"));
    assert!(!is_ip_address_text("01.2.3.4"));
    assert!(!is_ip_address_text("1.2.3"));
    assert!(!is_ip_address_text("1.2.3.4.5"));
    assert!(is_ip_address_text("::"));
    assert!(is_ip_address_text("::1"));
    assert!(is_ip_address_text("fe80::1"));
    assert!(is_ip_address_text("1:2:3:4:5:6:7:8"));
    assert!(is_ip_address_text("1:2:3:4:5:6:7::"));
    assert!(is_ip_address_text("::ffff:192.168.0.1"));
    assert!(is_ip_address_text("1:2:3:4:5:6:1.2.3.4"));
    assert!(!is_ip_address_text("1:2:3:4:5:6:7:8:9"));
    assert!(!is_ip_address_text("1::2::3"));
    assert!(!is_ip_address_text(":::"));
    assert!(!is_ip_address_text("12345::"));
    assert!(!is_ip_address_text("1.2.3.4::"));
    assert!(!is_ip_address_text("example.com"));
    assert!(!is_ip_address_text(""));
    assert!(!is_ip_address_text("[::1]"));
}

#[test]
fn ip_text_edge_forms() {
    let cases = [
        ("0.0.0.0", true),
        ("10.1.2.3", true),
        ("1.2.3.04", false),
        ("1..2.3", false),
        ("1::", true),
        ("::2:3:4:5:6:7:8", true),
        ("1:2:3:4:5:6:7:8::", false),
        ("::1.2.3.4", true),
        ("1:2:3:4:5:6:7:1.2.3.4", false),
        ("1:2:3:4:5::1.2.3.4", true),
        ("abcd:EF01::", true),
        ("g::", false),
        ("1:::2", false),
        (":1::", false),
        ("1:2", false),
        ("0000::", true),
        ("::1.2.3", false),
        ("1.2.3.4:80", false),
        (" 1.2.3.4", false),
    ];
    for (s, expected) in cases {
        assert_eq!(is_ip_address_text(s), expected, "{s}");
    }
}

#[test]
fn http_witness_passes_and_each_defect_is_named() {
    let w = EffectWitness::Http(http_witness());
    assert_eq!(w.validate(), Ok(()));
    assert_eq!(w.kind(), EffectKind::Http);

    let mut bad_url = http_witness();
    bad_url.request.safe_url = "https://example.com/?token=1".to_string();
    assert_eq!(EffectWitness::Http(bad_url).validate(), Err(EffectWitnessError::UnsafeHttpUrl));

    let mut secret_header = http_witness();
    secret_header.request.headers[0].name = "authorization".to_string();
    assert_eq!(EffectWitness::Http(secret_header).validate(), Err(EffectWitnessError::InvalidHash));

    let mut bad_body = http_witness();
    bad_body.request.body = Some(HttpRequestBodyWitness { hash: "xyz".to_string(), byte_len: 1 });
    assert_eq!(EffectWitness::Http(bad_body).validate(), Err(EffectWitnessError::InvalidHash));

    let mut bad_redirect = http_witness();
    bad_redirect.redirects[0].status = 200;
    assert_eq!(EffectWitness::Http(bad_redirect).validate(), Err(EffectWitnessError::UnsafeHttpUrl));

    let mut bad_dns = http_witness();
    bad_dns.dns_targets[0].addresses.push("not-an-ip".to_string());
    assert_eq!(EffectWitness::Http(bad_dns).validate(), Err(EffectWitnessError::InvalidDnsTarget));

    let mut bad_host = http_witness();
    bad_host.dns_targets[0].host = "exa mple.com".to_string();
    assert_eq!(EffectWitness::Http(bad_host).validate(), Err(EffectWitnessError::InvalidDnsTarget));

    let mut literal_two = http_witness();
    literal_two.dns_targets[0].kind = HttpDnsTargetKind::IpLiteral;
    assert_eq!(EffectWitness::Http(literal_two).validate(), Err(EffectWitnessError::InvalidDnsTarget));
}

#[test]
fn quickjs_witness_sequence_and_hashes() {
    let ok = QuickJsEffectWitness {
        script_hash: hash(),
        input_hash: hash(),
        output_hash: hash(),
        error: Some(QuickJsErrorKind::Timeout),
        host_calls: vec![
            QuickJsHostCallWitness { sequence: 1, call: QuickJsHostCall::Time { epoch_millis: 5 } },
            QuickJsHostCallWitness { sequence: 2, call: QuickJsHostCall::Random { value_bits: 7 } },
        ],
        duration_ms: 1,
    };
    assert_eq!(EffectWitness::QuickJs(ok.clone()).validate(), Ok(()));
    assert_eq!(EffectWitness::QuickJs(ok.clone()).kind(), EffectKind::QuickJs);
    let mut gap = ok.clone();
    gap.host_calls[1].sequence = 3;
    assert_eq!(EffectWitness::QuickJs(gap).validate(), Err(EffectWitnessError::InvalidHostCallSequence));
    let mut bad = ok;
    bad.script_hash = "nope".to_string();
    assert_eq!(EffectWitness::QuickJs(bad).validate(), Err(EffectWitnessError::InvalidHash));
}

#[test]
fn extract_witness_checks_input_hash() {
    let ok = EffectWitness::Extract(ExtractEffectWitness { input_hash: hash(), duration_ms: 0 });
    assert_eq!(ok.validate(), Ok(()));
    assert_eq!(ok.kind(), EffectKind::Extract);
    let bad = EffectWitness::Extract(ExtractEffectWitness { input_hash: String::new(), duration_ms: 0 });
    assert_eq!(bad.validate(), Err(EffectWitnessError::InvalidHash));
}

#[test]
fn capture_material_body_is_secret() {
    let m = EffectCaptureMaterial::from_http_request_body(Some(vec![1, 2, 3]));
    assert_eq!(m.request_body(), Some(&[1u8, 2, 3][..]));
    assert_eq!(m.request_body_sensitivity(), Some(EffectCaptureMaterialSensitivity::Secret));
    let empty = EffectCaptureMaterial::default();
    assert_eq!(empty.request_body(), None);
    assert_eq!(empty.request_body_sensitivity(), None);
}

#[test]
fn failure_kinds() {
    assert_eq!(EffectFailure::Http { error: HttpEffectErrorKind::Redirect }.kind(), EffectKind::Http);
    assert_eq!(EffectFailure::QuickJs { error: QuickJsErrorKind::Evaluation }.kind(), EffectKind::QuickJs);
    assert_eq!(EffectFailure::Extract.kind(), EffectKind::Extract);
}
