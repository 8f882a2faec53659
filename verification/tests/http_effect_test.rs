use lanjing::effect::{EffectErrorCode, HttpEffectErrorKind};
use lanjing::http_effect::{
    body_witness, effect_error_from_http, forbidden_secret_header, next_redirect, record_direct_target,
    record_pinned_target, record_redirect, resolve_request_url, safe_request_headers, safe_url, template_input_from_json,
    HttpEffectAdapter, HttpRequestError, MAX_REDIRECTS,
};
use lanjing::ip_text::IpAddress;
use lanjing::json::{JsonNumber, JsonValue};
use lanjing::ssrf::PinnedTarget;
use lanjing::witness::{effect_bytes_hash, HttpDnsTargetKind};

#[test]
fn default_adapter_guards_targets() {
    assert!(HttpEffectAdapter::new().ssrf_enabled());
    assert!(!HttpEffectAdapter::new_test().ssrf_enabled());
    assert!(HttpEffectAdapter::default().ssrf_enabled());
}

#[test]
fn request_errors_map_to_witness_kinds_and_handler_errors() {
    assert_eq!(HttpRequestError::Cancelled.witness_kind(), None);
    assert_eq!(HttpRequestError::Redirect.witness_kind(), Some(HttpEffectErrorKind::Redirect));
    assert_eq!(HttpRequestError::TargetValidation.witness_kind(), Some(HttpEffectErrorKind::TargetValidation));
    let e = effect_error_from_http(HttpRequestError::Cancelled);
    assert_eq!(e.code, EffectErrorCode::Cancelled);
    assert_eq!(e.message, "HTTP effect 已取消");
    let e = effect_error_from_http(HttpRequestError::ResponseRead);
    assert_eq!(e.code, EffectErrorCode::HttpRequest);
    assert_eq!(e.message, "HTTP effect 执行失败");
}

#[test]
fn redirects_are_limited() {
    assert_eq!(next_redirect(0), Ok(1));
    assert_eq!(next_redirect(MAX_REDIRECTS - 1), Ok(MAX_REDIRECTS));
    assert_eq!(next_redirect(MAX_REDIRECTS), Err(HttpRequestError::Redirect));
}

#[test]
fn secret_headers_cannot_route() {
    assert!(forbidden_secret_header("Host"));
    assert!(forbidden_secret_header("content-LENGTH"));
    assert!(forbidden_secret_header("Proxy-Authorization"));
    assert!(!forbidden_secret_header("Authorization"));
    assert!(!forbidden_secret_header("cookie"));
}

#[test]
fn safe_urls_drop_query_and_user() {
    assert_eq!(safe_url("https://example.com/a/b?token=1#x"), Ok("https://example.com/a/b".to_string()));
    assert_eq!(safe_url("http://example.com"), Ok("http://example.com/".to_string()));
    assert_eq!(safe_url("http://example.com:8080/p"), Ok("http://example.com:8080/p".to_string()));
    // `host_str` already brackets an IPv6 host, and the host is bracketed once more.
    assert_eq!(safe_url("http://[::1]:81/p"), Ok("http://[[::1]]:81/p".to_string()));
    assert_eq!(safe_url("https://user:pw@example.com/"), Err(HttpRequestError::TargetValidation));
    assert_eq!(safe_url("ftp://example.com/"), Err(HttpRequestError::TargetValidation));
    assert_eq!(safe_url("not a url"), Err(HttpRequestError::TargetValidation));
}

#[test]
fn request_urls_resolve_against_the_base() {
    assert_eq!(resolve_request_url("https://a.com/x", "https://b.com/"), "https://a.com/x");
    assert_eq!(resolve_request_url("/search?q=1", "https://b.com/base/"), "https://b.com/search?q=1");
    assert_eq!(resolve_request_url("item/1", "https://b.com/base/"), "https://b.com/base/item/1");
    assert_eq!(resolve_request_url("item/1", ""), "item/1");
    assert_eq!(resolve_request_url("item/1", "not a base"), "item/1");
}

#[test]
fn template_input_reads_json_fallbacks() {
    let value = JsonValue::Object(vec![
        ("query".to_string(), JsonValue::String("  修罗 ".to_string())),
        ("page".to_string(), JsonValue::Number(JsonNumber::PosInt(3))),
        ("url".to_string(), JsonValue::String("/book/1".to_string())),
        ("vodId".to_string(), JsonValue::String("42".to_string())),
    ]);
    let t = template_input_from_json(&value);
    assert_eq!(t.key.as_deref(), Some("修罗"));
    assert_eq!(t.page, Some(3));
    assert_eq!(t.book_url.as_deref(), Some("/book/1"));
    assert_eq!(t.chapter_url.as_deref(), Some("/book/1"));
    assert_eq!(t.vod_id.as_deref(), Some("42"));
    let t = template_input_from_json(&JsonValue::Object(vec![(
        "page".to_string(),
        JsonValue::String("7".to_string()),
    )]));
    assert_eq!(t.page, Some(7));
    assert_eq!(t.key, None);
}

#[test]
fn body_and_header_digests() {
    let w = body_witness("k=v");
    assert_eq!(w.hash, effect_bytes_hash(b"k=v"));
    assert_eq!(w.byte_len, 3);
    let w = body_witness("修");
    assert_eq!(w.byte_len, 3);

    let headers = vec![
        ("X-Trace".to_string(), "b".to_string()),
        ("Cookie".to_string(), "secret".to_string()),
        ("Accept".to_string(), "a".to_string()),
        ("bad name".to_string(), "x".to_string()),
    ];
    let out = safe_request_headers(&headers);
    let names: Vec<&str> = out.iter().map(|h| h.name.as_str()).collect();
    assert_eq!(names, vec!["accept", "x-trace"]);
    assert_eq!(out[0].value_hash, effect_bytes_hash(b"a"));
    assert_eq!(out[1].value_hash, effect_bytes_hash(b"b"));
}

#[test]
fn dns_target_records() {
    let t = record_direct_target("http://127.0.0.1:8080/x").unwrap();
    assert_eq!(t.host, "127.0.0.1");
    assert_eq!(t.addresses, vec!["127.0.0.1".to_string()]);
    assert_eq!(t.kind, HttpDnsTargetKind::IpLiteral);
    let t = record_direct_target("https://example.com/").unwrap();
    assert_eq!(t.host, "example.com");
    assert!(t.addresses.is_empty());
    assert_eq!(t.kind, HttpDnsTargetKind::DirectHost);
    assert_eq!(record_direct_target("::"), Err(HttpRequestError::TargetValidation));

    let pinned = PinnedTarget {
        url: "http://93.184.216.34:8080/p".to_string(),
        host_header: "example.com:8080".to_string(),
        addrs: vec![(IpAddress::V4(93, 184, 216, 34), 8080), (IpAddress::V6(0x2606, 0x2800, 0x220, 1, 0, 0, 0, 0), 8080)],
    };
    let t = record_pinned_target(&pinned).unwrap();
    assert_eq!(t.host, "example.com");
    assert_eq!(t.addresses, vec!["93.184.216.34".to_string(), "2606:2800:220:1::".to_string()]);
    assert_eq!(t.kind, HttpDnsTargetKind::PinnedDns);
}

#[test]
fn redirects_join_the_location_and_record_safe_urls() {
    let (next, hop) = record_redirect("https://example.com/a/b?t=1", 302, Some("../c?x=2")).unwrap();
    assert_eq!(next, "https://example.com/c?x=2");
    assert_eq!(hop.status, 302);
    assert_eq!(hop.from_url, "https://example.com/a/b");
    assert_eq!(hop.to_url, "https://example.com/c");
    assert_eq!(record_redirect("https://example.com/", 301, None), Err(HttpRequestError::Redirect));
    assert_eq!(
        record_redirect("https://example.com/", 301, Some("ftp://other.example/x")),
        Err(HttpRequestError::TargetValidation)
    );
}
