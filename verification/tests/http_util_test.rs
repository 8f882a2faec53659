use std::collections::HashMap;

use lanjing::http_util::{parse_charset, render_url_template, url_encode};

#[test]
fn url_template_no_substitution() {
    assert_eq!(
        render_url_template("http://example.com/search", None, None, None, None, None, None),
        "http://example.com/search"
    );
}

#[test]
fn url_template_key_only() {
    assert_eq!(
        render_url_template("http://example.com/search?q={{key}}", Some("修罗"), None, None, None, None, None),
        "http://example.com/search?q=%E4%BF%AE%E7%BD%97"
    );
}

#[test]
fn url_template_key_and_page() {
    assert_eq!(
        render_url_template(
            "http://example.com/search?q={{key}}&page={{page}}",
            Some("修罗"),
            Some(1),
            None,
            None,
            None,
            None,
        ),
        "http://example.com/search?q=%E4%BF%AE%E7%BD%97&page=1"
    );
}

#[test]
fn url_template_page_only() {
    assert_eq!(
        render_url_template("http://example.com/list?page={{page}}", None, Some(3), None, None, None, None),
        "http://example.com/list?page=3"
    );
}

#[test]
fn url_template_book_url() {
    assert_eq!(
        render_url_template(
            "http://example.com/book?url={{bookUrl}}",
            None,
            None,
            Some("http://source.com/book/123"),
            None,
            None,
            None,
        ),
        "http://example.com/book?url=http://source.com/book/123"
    );
}

#[test]
fn url_template_chapter_url() {
    assert_eq!(
        render_url_template(
            "http://example.com/chapter?url={{chapterUrl}}",
            None,
            None,
            None,
            Some("http://source.com/chapter/456"),
            None,
            None,
        ),
        "http://example.com/chapter?url=http://source.com/chapter/456"
    );
}

#[test]
fn url_template_missing_values_leave_placeholders() {
    assert_eq!(
        render_url_template("http://x/{{key}}/{{page}}", None, None, None, None, None, None),
        "http://x/{{key}}/{{page}}"
    );
}

#[test]
fn url_template_page_zero_and_max() {
    assert_eq!(
        render_url_template("p={{page}}", None, Some(0), None, None, None, None),
        "p=0"
    );
    assert_eq!(
        render_url_template("p={{page}}", None, Some(u32::MAX), None, None, None, None),
        "p=4294967295"
    );
}

#[test]
fn url_encode_ascii() {
    let encoded = url_encode("hello");
    assert_eq!(encoded, "hello");
}

#[test]
fn url_encode_chinese() {
    let encoded = url_encode("修罗");
    assert_eq!(encoded, "%E4%BF%AE%E7%BD%97");
}

#[test]
fn url_encode_special_chars() {
    let encoded = url_encode("a b");
    assert_eq!(encoded, "a%20b");
    let encoded = url_encode("a/b");
    assert_eq!(encoded, "a%2Fb");
    let encoded = url_encode("a?b");
    assert_eq!(encoded, "a%3Fb");
}

#[test]
fn url_encode_reserved_safe() {
    let encoded = url_encode("a-b_c.d~e");
    assert_eq!(encoded, "a-b_c.d~e");
}

#[test]
fn url_encode_empty() {
    assert_eq!(url_encode(""), "");
}

#[test]
fn parse_charset_utf8() {
    let mut headers = HashMap::new();
    headers.insert("content-type".to_string(), "text/html; charset=utf-8".to_string());
    assert_eq!(parse_charset(&headers), Some("utf-8".to_string()));
}

#[test]
fn parse_charset_gbk() {
    let mut headers = HashMap::new();
    headers.insert("content-type".to_string(), "text/html; charset=gbk".to_string());
    assert_eq!(parse_charset(&headers), Some("gbk".to_string()));
}

#[test]
fn parse_charset_no_charset() {
    let mut headers = HashMap::new();
    headers.insert("content-type".to_string(), "text/plain".to_string());
    assert_eq!(parse_charset(&headers), None);
}

#[test]
fn parse_charset_no_header() {
    let headers = HashMap::new();
    assert_eq!(parse_charset(&headers), None);
}

#[test]
fn parse_charset_edge_cases() {
    let mut headers = HashMap::new();
    headers.insert("content-type".into(), "text/plain".into());
    assert_eq!(parse_charset(&headers), None);
    headers.insert("content-type".into(), "text/html; charset = utf-8".into());
    assert_eq!(parse_charset(&headers), Some("utf-8".into()));
    let empty: HashMap<String, String> = HashMap::new();
    assert_eq!(parse_charset(&empty), None);
}
