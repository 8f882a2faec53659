use lanjing::ip_text::IpAddress;
use lanjing::ssrf::{ipv4_text, ipv6_text, is_blocked_ip, pin_target, url_target, SsrfError};

fn v4(a: u8, b: u8, c: u8, d: u8) -> IpAddress {
    IpAddress::V4(a, b, c, d)
}

fn v6(g: [u16; 8]) -> IpAddress {
    IpAddress::V6(g[0], g[1], g[2], g[3], g[4], g[5], g[6], g[7])
}

#[test]
fn test_block_loopback_v4() {
    assert!(is_blocked_ip(&v4(127, 0, 0, 1)));
    assert!(is_blocked_ip(&v4(127, 255, 255, 255)));
}

#[test]
fn test_block_aws_metadata() {
    assert!(is_blocked_ip(&v4(169, 254, 169, 254)));
}

#[test]
fn test_block_alibaba_metadata() {
    assert!(is_blocked_ip(&v4(100, 100, 100, 200)));
}

#[test]
fn test_block_rfc1918() {
    assert!(is_blocked_ip(&v4(192, 168, 1, 1)));
    assert!(is_blocked_ip(&v4(10, 0, 0, 1)));
    assert!(is_blocked_ip(&v4(172, 16, 0, 1)));
    assert!(is_blocked_ip(&v4(172, 31, 255, 255)));
}

#[test]
fn test_block_link_local() {
    assert!(is_blocked_ip(&v4(169, 254, 1, 1)));
}

#[test]
fn test_block_unspecified() {
    assert!(is_blocked_ip(&v4(0, 0, 0, 0)));
}

#[test]
fn test_block_zero_octet() {
    assert!(is_blocked_ip(&v4(0, 0, 0, 1)));
}

#[test]
fn test_block_cgnat() {
    assert!(is_blocked_ip(&v4(100, 64, 0, 1)));
    assert!(is_blocked_ip(&v4(100, 127, 255, 254)));
    assert!(!is_blocked_ip(&v4(100, 128, 0, 1)));
    assert!(!is_blocked_ip(&v4(100, 63, 255, 255)));
}

#[test]
fn test_block_broadcast() {
    assert!(is_blocked_ip(&v4(255, 255, 255, 255)));
}

#[test]
fn test_allow_public_v4() {
    assert!(!is_blocked_ip(&v4(8, 8, 8, 8)));
    assert!(!is_blocked_ip(&v4(1, 1, 1, 1)));
    assert!(!is_blocked_ip(&v4(172, 32, 0, 1)));
}

#[test]
fn test_block_loopback_v6() {
    assert!(is_blocked_ip(&v6([0, 0, 0, 0, 0, 0, 0, 1])));
}

#[test]
fn test_block_unspecified_v6() {
    assert!(is_blocked_ip(&v6([0; 8])));
}

#[test]
fn test_block_v6_ranges() {
    assert!(is_blocked_ip(&v6([0xfe80, 0, 0, 0, 0, 0, 0, 1])));
    assert!(is_blocked_ip(&v6([0xfebf, 0, 0, 0, 0, 0, 0, 1])));
    assert!(!is_blocked_ip(&v6([0xfec0, 0, 0, 0, 0, 0, 0, 1])));
    assert!(is_blocked_ip(&v6([0xfc00, 0, 0, 0, 0, 0, 0, 1])));
    assert!(is_blocked_ip(&v6([0xfd12, 0x3456, 0, 0, 0, 0, 0, 1])));
    assert!(is_blocked_ip(&v6([0, 0, 0, 0, 0, 0xffff, 0x7f00, 0x0001])));
    assert!(!is_blocked_ip(&v6([0, 0, 0, 0, 0, 0xffff, 0x0808, 0x0808])));
    assert!(is_blocked_ip(&v6([0, 0, 0, 0, 0, 0, 0x0808, 0x0808])));
    assert!(!is_blocked_ip(&v6([0x2001, 0x4860, 0x4860, 0, 0, 0, 0, 0x8888])));
}

#[test]
fn address_texts() {
    assert_eq!(ipv4_text(192, 168, 0, 1), "192.168.0.1");
    assert_eq!(ipv6_text([0x2001, 0xdb8, 0, 0, 0, 0, 0, 1]), "2001:db8::1");
    assert_eq!(ipv6_text([0; 8]), "::");
    assert_eq!(ipv6_text([0, 0, 0, 0, 0, 0, 0, 1]), "::1");
    assert_eq!(ipv6_text([1, 0, 0, 0, 0, 0, 0, 0]), "1::");
    assert_eq!(ipv6_text([1, 0, 2, 0, 0, 3, 0, 0]), "1:0:2::3:0:0");
    assert_eq!(ipv6_text([1, 2, 3, 4, 5, 6, 7, 8]), "1:2:3:4:5:6:7:8");
    assert_eq!(ipv6_text([1, 0, 3, 4, 5, 6, 7, 8]), "1:0:3:4:5:6:7:8");
    assert_eq!(ipv6_text([0, 0, 0, 0, 0, 0xffff, 0xc0a8, 0x0001]), "::ffff:192.168.0.1");
    assert_eq!(ipv6_text([0xabcd, 0xef, 0, 0, 0, 0, 0, 0]), "abcd:ef::");
}

#[test]
fn url_targets_and_pinning() {
    assert_eq!(url_target("not a url"), Err(SsrfError::InvalidUrl));
    let parts = url_target("http://example.com:8080/p/q?x=1").unwrap();
    assert_eq!(parts.host.as_deref(), Some("example.com"));
    let pinned = pin_target("http://example.com:8080/p/q?x=1", &parts, &vec![v4(93, 184, 216, 34)]).unwrap();
    assert_eq!(pinned.url, "http://93.184.216.34:8080/p/q?x=1");
    assert_eq!(pinned.host_header, "example.com:8080");
    assert_eq!(pinned.addrs, vec![(v4(93, 184, 216, 34), 8080)]);

    let parts = url_target("https://example.com/a").unwrap();
    let pinned = pin_target("https://example.com/a", &parts, &vec![v6([0x2606, 0x2800, 0x220, 1, 0, 0, 0, 0])]).unwrap();
    assert_eq!(pinned.url, "https://example.com/a");
    assert_eq!(pinned.host_header, "example.com");
    assert_eq!(pinned.addrs[0].1, 443);

    let parts = url_target("http://example.com/").unwrap();
    let pinned = pin_target("http://example.com/", &parts, &vec![v6([0x2606, 0x2800, 0x220, 1, 0, 0, 0, 0])]).unwrap();
    assert_eq!(pinned.url, "http://[2606:2800:220:1::]:80/");

    assert_eq!(pin_target("http://example.com/", &parts, &vec![]), Err(SsrfError::NoAddress));
    assert_eq!(
        pin_target("http://example.com/", &parts, &vec![v4(8, 8, 8, 8), v4(10, 0, 0, 1)]),
        Err(SsrfError::Blocked { host: "example.com".to_string(), ip: v4(10, 0, 0, 1) })
    );
}

#[test]
fn test_block_link_local_v6() {
    assert!(is_blocked_ip(&v6([0xfe80, 0, 0, 0, 0, 0, 0, 1])));
    assert!(is_blocked_ip(&v6([0xfeb0, 0, 0, 0, 0, 0, 0, 1])));
}

#[test]
fn test_block_unique_local_v6() {
    assert!(is_blocked_ip(&v6([0xfc00, 0, 0, 0, 0, 0, 0, 1])));
    assert!(is_blocked_ip(&v6([0xfd00, 0, 0, 0, 0, 0, 0, 1])));
}

#[test]
fn test_allow_public_v6() {
    assert!(!is_blocked_ip(&v6([0x2001, 0x4860, 0x4860, 0, 0, 0, 0, 0x8888])));
}

#[test]
fn test_block_ipv4_mapped_loopback() {
    assert!(is_blocked_ip(&v6([0, 0, 0, 0, 0, 0xffff, 0x7f00, 0x0001])));
}

#[test]
fn test_block_ipv4_mapped_private() {
    assert!(is_blocked_ip(&v6([0, 0, 0, 0, 0, 0xffff, 0xc0a8, 0x0101])));
}

#[test]
fn test_allow_ipv4_mapped_public() {
    assert!(!is_blocked_ip(&v6([0, 0, 0, 0, 0, 0xffff, 0x0808, 0x0808])));
}

#[test]
fn test_block_ipv4_mapped_cgnat() {
    assert!(is_blocked_ip(&v6([0, 0, 0, 0, 0, 0xffff, 0x6440, 0x0001])));
}

#[test]
fn test_block_ipv4_compatible() {
    assert!(is_blocked_ip(&v6([0, 0, 0, 0, 0, 0, 0x7f00, 0x0001])));
    assert!(is_blocked_ip(&v6([0, 0, 0, 0, 0, 0, 0xc0a8, 0x0101])));
}

#[test]
fn test_block_ipv4_compatible_zero() {
    assert!(is_blocked_ip(&v6([0, 0, 0, 0, 0, 0, 0, 0])));
}

#[test]
fn ssrf_block_rfc1918() {
    assert!(is_blocked_ip(&v4(192, 168, 1, 1)));
    assert!(is_blocked_ip(&v4(10, 0, 0, 1)));
    assert!(is_blocked_ip(&v4(172, 16, 0, 1)));
}

#[test]
fn ssrf_block_loopback_v6() {
    assert!(is_blocked_ip(&v6([0, 0, 0, 0, 0, 0, 0, 1])));
}

#[test]
fn ssrf_allow_public() {
    assert!(!is_blocked_ip(&v4(8, 8, 8, 8)));
    assert!(!is_blocked_ip(&v4(1, 1, 1, 1)));
}

#[test]
fn ssrf_block_loopback_v4() {
    assert!(is_blocked_ip(&v4(127, 0, 0, 1)));
}

#[test]
fn ssrf_block_aws_metadata() {
    assert!(is_blocked_ip(&v4(169, 254, 169, 254)));
}

#[test]
fn ssrf_block_alibaba_metadata() {
    assert!(is_blocked_ip(&v4(100, 100, 100, 200)));
}
