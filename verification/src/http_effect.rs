//! HTTP effect rules: request-error categories, safe request digests for the witness,
//! template input from JSON, URL resolution and the redirect limit.

use vstd::prelude::*;
use vstd::string::StringExecFns;
use vstd::utf8::encode_utf8;

use crate::model::distinct_header_names;
use crate::effect::{EffectError, EffectErrorCode, HttpEffectErrorKind};
use crate::http_util::{decimal, u32_to_decimal};
use crate::json::{get, text_field, text_field_spec, spec_get, str_views, JsonNumber, JsonValue};
use crate::quickjs::{parse_page, parse_u32};
use crate::ip_text::{is_ip_address_text, is_ip_text, IpAddress};
use crate::ssrf::{groups, ipv4_text, ipv6_text, opt_text, parse_url_parts, parsed_url, parts_view, v4_text, v6_text, PinnedTarget};
use crate::text::{chars_eq, chars_of, has_char, str_starts_with, has_prefix, to_owned_string};
use crate::witness::{
    ascii_lower, ascii_lower_seq, blake3_hex, effect_bytes_hash, is_safe_header_name, is_sensitive_header_name,
    safe_header_name, sensitive_header_name, HttpDnsTargetKind, HttpDnsTargetWitness, HttpRedirectWitness, HttpRequestBodyWitness,
    HttpRequestHeaderWitness,
};

verus! {

/// Largest response body accepted, in bytes.
pub const MAX_BODY_SIZE: usize = 16777216;

/// Redirect hops followed at most.
pub const MAX_REDIRECTS: usize = 5;

/// Connection timeout, in seconds.
pub const CONNECT_TIMEOUT_SECS: u64 = 10;

/// Timeout of one whole request, in seconds.
pub const REQUEST_TIMEOUT_SECS: u64 = 30;

/// The live HTTP effect adapter; its SSRF guard is on except in tests.
#[derive(Debug, Clone, Copy, PartialEq, Eq, Structural)]
pub struct HttpEffectAdapter {
    ssrf_enabled: bool,
}

impl HttpEffectAdapter {
    /// Whether targets go through the SSRF guard.
    pub closed spec fn guarded(&self) -> bool {
        self.ssrf_enabled
    }

    /// The adapter with the SSRF guard on.
    pub fn new() -> (a: HttpEffectAdapter)
        ensures
            a.guarded(),
    {
        HttpEffectAdapter { ssrf_enabled: true }
    }

    /// The adapter for local tests, without the SSRF guard.
    pub fn new_test() -> (a: HttpEffectAdapter)
        ensures
            !a.guarded(),
    {
        HttpEffectAdapter { ssrf_enabled: false }
    }

    /// Whether targets go through the SSRF guard.
    pub fn ssrf_enabled(&self) -> (b: bool)
        ensures
            b == self.guarded(),
    {
        self.ssrf_enabled
    }
}

impl Default for HttpEffectAdapter {
    /// The adapter with the SSRF guard on.
    fn default() -> (a: HttpEffectAdapter)
        ensures
            a.guarded(),
    {
        HttpEffectAdapter::new()
    }
}

/// Why an HTTP request failed.
#[derive(Debug, Clone, Copy, PartialEq, Eq, Structural)]
pub enum HttpRequestError {
    /// The effect was cancelled.
    Cancelled,
    /// The target failed validation.
    TargetValidation,
    /// Building or sending the request failed.
    Request,
    /// A redirect failed.
    Redirect,
    /// Reading the response failed.
    ResponseRead,
}

/// The witness category of a request failure; a cancellation has none.
pub open spec fn request_error_kind(e: HttpRequestError) -> Option<HttpEffectErrorKind> {
    match e {
        HttpRequestError::Cancelled => None,
        HttpRequestError::TargetValidation => Some(HttpEffectErrorKind::TargetValidation),
        HttpRequestError::Request => Some(HttpEffectErrorKind::Request),
        HttpRequestError::Redirect => Some(HttpEffectErrorKind::Redirect),
        HttpRequestError::ResponseRead => Some(HttpEffectErrorKind::ResponseRead),
    }
}

impl HttpRequestError {
    /// The witness category of this failure; a cancellation has none.
    pub fn witness_kind(self) -> (k: Option<HttpEffectErrorKind>)
        ensures
            k == request_error_kind(self),
    {
        match self {
            HttpRequestError::Cancelled => None,
            HttpRequestError::TargetValidation => Some(HttpEffectErrorKind::TargetValidation),
            HttpRequestError::Request => Some(HttpEffectErrorKind::Request),
            HttpRequestError::Redirect => Some(HttpEffectErrorKind::Redirect),
            HttpRequestError::ResponseRead => Some(HttpEffectErrorKind::ResponseRead),
        }
    }
}

/// The handler error of a request failure: cancellation, or a generic HTTP failure.
pub fn effect_error_from_http(error: HttpRequestError) -> (e: EffectError)
    ensures
        error == HttpRequestError::Cancelled ==> e.code == EffectErrorCode::Cancelled && e.message@ == "HTTP effect 已取消"@,
        error != HttpRequestError::Cancelled ==> e.code == EffectErrorCode::HttpRequest && e.message@ == "HTTP effect 执行失败"@,
{
    match error {
        HttpRequestError::Cancelled => EffectError::new(EffectErrorCode::Cancelled, to_owned_string("HTTP effect 已取消")),
        HttpRequestError::TargetValidation | HttpRequestError::Request | HttpRequestError::Redirect
        | HttpRequestError::ResponseRead => EffectError::new(
            EffectErrorCode::HttpRequest,
            to_owned_string("HTTP effect 执行失败"),
        ),
    }
}

/// Counts one more redirect hop: refused once more than the limit have been followed.
pub fn next_redirect(count: usize) -> (r: Result<usize, HttpRequestError>)
    ensures
        count < MAX_REDIRECTS ==> r == Ok::<usize, HttpRequestError>((count + 1) as usize),
        count >= MAX_REDIRECTS ==> r == Err::<usize, HttpRequestError>(HttpRequestError::Redirect),
{
    if count >= MAX_REDIRECTS {
        Err(HttpRequestError::Redirect)
    } else {
        Ok(count + 1)
    }
}

/// The header names a source secret may not set: routing and hop-by-hop fields.
pub open spec fn is_forbidden_secret_header(name: Seq<char>) -> bool {
    let n = ascii_lower_seq(name);
    n == "host"@ || n == "content-length"@ || n == "transfer-encoding"@ || n == "connection"@
        || n == "proxy-authorization"@
}

fn lower_chars(s: &Vec<char>) -> (r: Vec<char>)
    ensures
        r@ == ascii_lower_seq(s@),
{
    let mut r: Vec<char> = Vec::new();
    let mut i: usize = 0;
    while i < s.len()
        invariant
            i <= s@.len(),
            r@ == ascii_lower_seq(s@.subrange(0, i as int)),
        decreases s@.len() - i,
    {
        let c = s[i];
        let l = if 'A' <= c && c <= 'Z' {
            let u: u8 = c as u8;
            let v: u8 = u + 32;
            v as char
        } else {
            c
        };
        r.push(l);
        proof {
            assert(ascii_lower_seq(s@.subrange(0, i + 1)) =~= ascii_lower_seq(s@.subrange(0, i as int)).push(ascii_lower(s@[i as int])));
        }
        i = i + 1;
    }
    proof {
        assert(s@.subrange(0, s@.len() as int) =~= s@);
    }
    r
}

/// Whether a source secret may not set header `name` (compared case-insensitively).
pub fn forbidden_secret_header(name: &str) -> (b: bool)
    ensures
        b == is_forbidden_secret_header(name@),
{
    let n = lower_chars(&chars_of(name));
    chars_eq(&n, &chars_of("host")) || chars_eq(&n, &chars_of("content-length")) || chars_eq(
        &n,
        &chars_of("transfer-encoding"),
    ) || chars_eq(&n, &chars_of("connection")) || chars_eq(&n, &chars_of("proxy-authorization"))
}

// ---------------------------------------------------------------------------------------
// Safe URL for the witness.

/// The witness URL of a request URL: scheme, host (IPv6 in brackets), the explicit port
/// and the path (`/` when empty); refused when the URL does not parse, is not HTTP(S),
/// carries user information or has no host.
pub open spec fn safe_url_of(raw: Seq<char>) -> Option<Seq<char>> {
    match parsed_url(raw) {
        None => None,
        Some((scheme, username, has_password, host, port, _port_or_default, path, _query)) => {
            if !(scheme == "http"@ || scheme == "https"@) || username.len() > 0 || has_password {
                None
            } else {
                match host {
                    None => None,
                    Some(h) => if h.len() == 0 {
                        None
                    } else {
                        let host_text = if h.contains(':') { seq!['['] + h + seq![']'] } else { h };
                        let port_text = match port {
                            Some(p) => seq![':'] + decimal(p as nat),
                            None => Seq::empty(),
                        };
                        let path_text = if path.len() == 0 { seq!['/'] } else { path };
                        Some(scheme + "://"@ + host_text + port_text + path_text)
                    },
                }
            }
        },
    }
}

/// The witness URL of a request URL, without query, fragment or user information.
pub fn safe_url(raw_url: &str) -> (r: Result<String, HttpRequestError>)
    ensures
        match safe_url_of(raw_url@) {
            Some(u) => r matches Ok(s) && s@ == u,
            None => r == Err::<String, HttpRequestError>(HttpRequestError::TargetValidation),
        },
{
    let parts = match parse_url_parts(raw_url) {
        None => {
            return Err(HttpRequestError::TargetValidation);
        },
        Some(p) => p,
    };
    let scheme = chars_of(parts.scheme.as_str());
    if !(chars_eq(&scheme, &chars_of("http")) || chars_eq(&scheme, &chars_of("https")))
        || chars_of(parts.username.as_str()).len() != 0 || parts.has_password {
        return Err(HttpRequestError::TargetValidation);
    }
    let host = match &parts.host {
        None => {
            return Err(HttpRequestError::TargetValidation);
        },
        Some(h) => h,
    };
    let host_chars = chars_of(host.as_str());
    if host_chars.len() == 0 {
        return Err(HttpRequestError::TargetValidation);
    }
    proof {
        reveal_strlit("[");
        reveal_strlit("]");
        reveal_strlit(":");
        reveal_strlit("/");
    }
    let mut out = parts.scheme.clone();
    out.append("://");
    if has_char(&host_chars, ':') {
        out.append("[");
        out.append(host.as_str());
        out.append("]");
    } else {
        out.append(host.as_str());
    }
    match parts.port {
        Some(p) => {
            out.append(":");
            let digits = u32_to_decimal(p as u32);
            out.append(digits.as_str());
        },
        None => {},
    }
    if chars_of(parts.path.as_str()).len() == 0 {
        out.append("/");
    } else {
        out.append(parts.path.as_str());
    }
    proof {
        let v = parts_view(parts);
        assert(out@ =~= safe_url_of(raw_url@)->0);
    }
    Ok(out)
}

/// `base` joined with a relative reference, as the `url` crate joins them.
pub uninterp spec fn joined_url(base: Seq<char>, reference: Seq<char>) -> Option<Seq<char>>;

/// Calls `url::Url::parse` on the base, then `Url::join` and `to_string`. Claimed: the
/// result is the named join of the two texts, `None` when either step fails.
#[verifier::external_body]
fn join_url(base: &str, reference: &str) -> (r: Option<String>)
    ensures
        match r {
            Some(u) => joined_url(base@, reference@) == Some(u@),
            None => joined_url(base@, reference@) is None,
        },
{
    match url::Url::parse(base) {
        Ok(b) => match b.join(reference) {
            Ok(u) => Some(u.to_string()),
            Err(_) => None,
        },
        Err(_) => None,
    }
}

/// The absolute request URL: an `http://` or `https://` URL, or any URL when there is no
/// base, stays; otherwise it is joined to the base, and stays when the join fails.
pub open spec fn resolved_url(url: Seq<char>, base: Seq<char>) -> Seq<char> {
    if has_prefix(url, "http://"@) || has_prefix(url, "https://"@) || base.len() == 0 {
        url
    } else {
        match joined_url(base, url) {
            Some(u) => u,
            None => url,
        }
    }
}

/// Resolves a rendered request URL against the source's base URL.
pub fn resolve_request_url(url_str: &str, base_url: &str) -> (r: String)
    ensures
        r@ == resolved_url(url_str@, base_url@),
{
    if str_starts_with(url_str, "http://") || str_starts_with(url_str, "https://") || chars_of(base_url).len() == 0 {
        return to_owned_string(url_str);
    }
    match join_url(base_url, url_str) {
        Some(u) => u,
        None => to_owned_string(url_str),
    }
}

/// Where a redirect leads, and its witness, given the URL answered and the response's
/// `Location` text: the location joined to the answered URL, both recorded without query,
/// fragment or user information. A missing or unjoinable location is a redirect failure;
/// an unsafe URL on either side is a target failure.
pub open spec fn redirect_outcome(current: Seq<char>, location: Option<Seq<char>>) -> Result<
    (Seq<char>, Seq<char>, Seq<char>),
    HttpRequestError,
> {
    match location {
        None => Err(HttpRequestError::Redirect),
        Some(l) => match joined_url(current, l) {
            None => Err(HttpRequestError::Redirect),
            Some(next) => match (safe_url_of(current), safe_url_of(next)) {
                (Some(from), Some(to)) => Ok((next, from, to)),
                _ => Err(HttpRequestError::TargetValidation),
            },
        },
    }
}

/// Follows one redirect answered with `status` from `current_url`: the next URL and the
/// hop's witness.
pub fn record_redirect(current_url: &str, status: u16, location: Option<&str>) -> (r: Result<
    (String, HttpRedirectWitness),
    HttpRequestError,
>)
    ensures
        match redirect_outcome(
            current_url@,
            match location {
                Some(l) => Some(l@),
                None => None,
            },
        ) {
            Ok((next, from, to)) => r matches Ok((n, w)) && n@ == next && w.status == status && w.from_url@ == from
                && w.to_url@ == to,
            Err(e) => r == Err::<(String, HttpRedirectWitness), HttpRequestError>(e),
        },
{
    let location = match location {
        Some(l) => l,
        None => {
            return Err(HttpRequestError::Redirect);
        },
    };
    let next_url = match join_url(current_url, location) {
        Some(u) => u,
        None => {
            return Err(HttpRequestError::Redirect);
        },
    };
    let from_url = match safe_url(current_url) {
        Ok(u) => u,
        Err(e) => {
            return Err(e);
        },
    };
    let to_url = match safe_url(next_url.as_str()) {
        Ok(u) => u,
        Err(e) => {
            return Err(e);
        },
    };
    Ok((next_url, HttpRedirectWitness { status, from_url, to_url }))
}

// ---------------------------------------------------------------------------------------
// Template input from JSON.

/// The values a URL template is rendered with.
#[derive(Debug, Clone, PartialEq, Eq, Default)]
pub struct TemplateInput {
    /// `{{key}}`.
    pub key: Option<String>,
    /// `{{page}}`.
    pub page: Option<u32>,
    /// `{{bookUrl}}`.
    pub book_url: Option<String>,
    /// `{{chapterUrl}}`.
    pub chapter_url: Option<String>,
    /// `{{vod_id}}`.
    pub vod_id: Option<String>,
    /// `{{type}}`.
    pub type_: Option<String>,
}

/// The page of a JSON input: an unsigned integer `page` (none when it exceeds 32 bits),
/// else a `page` string that parses as a `u32`.
pub open spec fn json_page_spec(value: JsonValue) -> Option<u32> {
    match spec_get(value, "page"@) {
        Some(JsonValue::Number(JsonNumber::PosInt(n))) => if n <= u32::MAX { Some(n as u32) } else { None },
        Some(JsonValue::String(s)) => parse_u32(s@),
        _ => None,
    }
}

/// The page of a JSON input.
pub fn json_page(value: &JsonValue) -> (r: Option<u32>)
    ensures
        r == json_page_spec(*value),
{
    match get(value, "page") {
        Some(JsonValue::Number(JsonNumber::PosInt(n))) => if *n <= 4294967295 { Some(*n as u32) } else { None },
        Some(JsonValue::String(s)) => parse_page(s.as_str()),
        _ => None,
    }
}

/// Texts of an optional string.
pub open spec fn opt_view(s: Option<String>) -> Option<Seq<char>> {
    opt_text(s)
}

/// Template values read from a JSON input: each the first non-blank string among its
/// listed keys, trimmed, and the page.
pub fn template_input_from_json(value: &JsonValue) -> (t: TemplateInput)
    ensures
        opt_view(t.key) == text_field_spec(*value, seq!["key"@, "query"@, "url"@]),
        t.page == json_page_spec(*value),
        opt_view(t.book_url) == text_field_spec(*value, seq!["bookUrl"@, "book_url"@, "url"@]),
        opt_view(t.chapter_url) == text_field_spec(*value, seq!["chapterUrl"@, "chapter_url"@, "url"@]),
        opt_view(t.vod_id) == text_field_spec(*value, seq!["vod_id"@, "vodId"@, "source_item_id"@, "id"@]),
        opt_view(t.type_) == text_field_spec(*value, seq!["type"@, "type_id"@]),
{
    let key_keys: [&str; 3] = ["key", "query", "url"];
    let book_keys: [&str; 3] = ["bookUrl", "book_url", "url"];
    let chapter_keys: [&str; 3] = ["chapterUrl", "chapter_url", "url"];
    let vod_keys: [&str; 4] = ["vod_id", "vodId", "source_item_id", "id"];
    let type_keys: [&str; 2] = ["type", "type_id"];
    proof {
        assert(str_views(key_keys@) =~= seq!["key"@, "query"@, "url"@]);
        assert(str_views(book_keys@) =~= seq!["bookUrl"@, "book_url"@, "url"@]);
        assert(str_views(chapter_keys@) =~= seq!["chapterUrl"@, "chapter_url"@, "url"@]);
        assert(str_views(vod_keys@) =~= seq!["vod_id"@, "vodId"@, "source_item_id"@, "id"@]);
        assert(str_views(type_keys@) =~= seq!["type"@, "type_id"@]);
    }
    TemplateInput {
        key: text_field(value, key_keys.as_slice()),
        page: json_page(value),
        book_url: text_field(value, book_keys.as_slice()),
        chapter_url: text_field(value, chapter_keys.as_slice()),
        vod_id: text_field(value, vod_keys.as_slice()),
        type_: text_field(value, type_keys.as_slice()),
    }
}

// ---------------------------------------------------------------------------------------
// Request body and header digests.

/// Digest of a request body: its BLAKE3 hash and byte length.
pub fn body_witness(body: &str) -> (w: HttpRequestBodyWitness)
    ensures
        w.hash@ == blake3_hex(encode_utf8(body@)),
        w.byte_len == encode_utf8(body@).len(),
{
    let bytes = body.as_bytes_vec();
    let hash = effect_bytes_hash(bytes.as_slice());
    HttpRequestBodyWitness { hash, byte_len: bytes.len() as u64 }
}

/// Lexicographic order of texts, by character.
pub open spec fn chars_le(a: Seq<char>, b: Seq<char>) -> bool
    decreases a.len(),
{
    if a.len() == 0 {
        true
    } else if b.len() == 0 {
        false
    } else if a[0] != b[0] {
        a[0] < b[0]
    } else {
        chars_le(a.drop_first(), b.drop_first())
    }
}

proof fn lemma_chars_le_total(a: Seq<char>, b: Seq<char>)
    ensures
        chars_le(a, b) || chars_le(b, a),
    decreases a.len(),
{
    if a.len() > 0 && b.len() > 0 && a[0] == b[0] {
        lemma_chars_le_total(a.drop_first(), b.drop_first());
    }
}

proof fn lemma_chars_le_antisymmetric(a: Seq<char>, b: Seq<char>)
    requires
        chars_le(a, b),
        chars_le(b, a),
    ensures
        a == b,
    decreases a.len(),
{
    if a.len() > 0 && b.len() > 0 {
        lemma_chars_le_antisymmetric(a.drop_first(), b.drop_first());
        assert(a =~= seq![a[0]] + a.drop_first());
        assert(b =~= seq![b[0]] + b.drop_first());
    }
}

proof fn lemma_chars_le_transitive(a: Seq<char>, b: Seq<char>, c: Seq<char>)
    requires
        chars_le(a, b),
        chars_le(b, c),
    ensures
        chars_le(a, c),
    decreases a.len(),
{
    if a.len() > 0 && b.len() > 0 && c.len() > 0 && a[0] == b[0] && b[0] == c[0] {
        lemma_chars_le_transitive(a.drop_first(), b.drop_first(), c.drop_first());
    }
}

/// Order of header digests: by name, then by value hash.
pub open spec fn digest_le(x: (Seq<char>, Seq<char>), y: (Seq<char>, Seq<char>)) -> bool {
    if x.0 == y.0 {
        chars_le(x.1, y.1)
    } else {
        chars_le(x.0, y.0)
    }
}

proof fn lemma_digest_le_total(x: (Seq<char>, Seq<char>), y: (Seq<char>, Seq<char>))
    ensures
        digest_le(x, y) || digest_le(y, x),
{
    lemma_chars_le_total(x.0, y.0);
    lemma_chars_le_total(x.1, y.1);
}

proof fn lemma_digest_le_transitive(x: (Seq<char>, Seq<char>), y: (Seq<char>, Seq<char>), z: (Seq<char>, Seq<char>))
    requires
        digest_le(x, y),
        digest_le(y, z),
    ensures
        digest_le(x, z),
{
    if x.0 == y.0 && y.0 == z.0 {
        lemma_chars_le_transitive(x.1, y.1, z.1);
    } else if x.0 == y.0 || y.0 == z.0 {
    } else {
        lemma_chars_le_transitive(x.0, y.0, z.0);
        if x.0 == z.0 {
            lemma_chars_le_antisymmetric(x.0, y.0);
        }
    }
}

fn chars_le_exec(a: &Vec<char>, b: &Vec<char>) -> (r: bool)
    ensures
        r == chars_le(a@, b@),
{
    let mut i: usize = 0;
    assert(a@.skip(0) =~= a@);
    assert(b@.skip(0) =~= b@);
    while i < a.len() && i < b.len() && a[i] == b[i]
        invariant
            i <= a@.len(),
            i <= b@.len(),
            chars_le(a@, b@) == chars_le(a@.skip(i as int), b@.skip(i as int)),
        decreases a@.len() - i,
    {
        proof {
            assert(a@.skip(i as int).drop_first() =~= a@.skip(i + 1));
            assert(b@.skip(i as int).drop_first() =~= b@.skip(i + 1));
        }
        i = i + 1;
    }
    if i == a.len() {
        true
    } else if i == b.len() {
        false
    } else {
        a[i] < b[i]
    }
}

/// `w` orders at or before the digest `(name, hash)`.
fn digest_not_after(w: &HttpRequestHeaderWitness, name: &Vec<char>, hash: &Vec<char>) -> (b: bool)
    ensures
        b == digest_le(digest_view(*w), (name@, hash@)),
{
    let on = chars_of(w.name.as_str());
    let oh = chars_of(w.value_hash.as_str());
    if chars_eq(&on, name) {
        chars_le_exec(&oh, hash)
    } else {
        chars_le_exec(&on, name)
    }
}

/// The digest of a header as texts.
pub open spec fn digest_view(w: HttpRequestHeaderWitness) -> (Seq<char>, Seq<char>) {
    (w.name@, w.value_hash@)
}

/// The digest a request header contributes: its lower-cased name and the hash of its
/// value, when that name is safe and not sensitive.
pub open spec fn header_digest(h: (String, String)) -> Option<(Seq<char>, Seq<char>)> {
    let n = ascii_lower_seq(h.0@);
    if is_safe_header_name(n) && !is_sensitive_header_name(n) {
        Some((n, blake3_hex(encode_utf8(h.1@))))
    } else {
        None
    }
}

/// The digests of the headers, in header order.
pub open spec fn header_digests(h: Seq<(String, String)>) -> Seq<(Seq<char>, Seq<char>)>
    decreases h.len(),
{
    if h.len() == 0 {
        Seq::empty()
    } else {
        match header_digest(h.last()) {
            Some(d) => header_digests(h.drop_last()).push(d),
            None => header_digests(h.drop_last()),
        }
    }
}

/// Digests of the safe request headers for the witness: names lower-cased, sensitive and
/// malformed names left out, values hashed; sorted by name, then hash.
pub fn safe_request_headers(headers: &Vec<(String, String)>) -> (out: Vec<HttpRequestHeaderWitness>)
    requires
        distinct_header_names(headers@),
    ensures
        out@.map_values(|w: HttpRequestHeaderWitness| digest_view(w)).to_multiset() == header_digests(headers@).to_multiset(),
        forall|i: int, j: int| 0 <= i < j < out@.len() ==> digest_le(digest_view(#[trigger] out@[i]), digest_view(#[trigger] out@[j])),
{
    let mut out: Vec<HttpRequestHeaderWitness> = Vec::new();
    let mut k: usize = 0;
    proof {
        assert(headers@.subrange(0, 0) =~= Seq::<(String, String)>::empty());
        assert(out@.map_values(|w: HttpRequestHeaderWitness| digest_view(w)) =~= Seq::<(Seq<char>, Seq<char>)>::empty());
    }
    while k < headers.len()
        invariant
            k <= headers@.len(),
            out@.map_values(|w: HttpRequestHeaderWitness| digest_view(w)).to_multiset() == header_digests(headers@.subrange(0, k as int)).to_multiset(),
            forall|i: int, j: int| 0 <= i < j < out@.len() ==> digest_le(digest_view(#[trigger] out@[i]), digest_view(#[trigger] out@[j])),
        decreases headers@.len() - k,
    {
        let ghost prefix = headers@.subrange(0, k + 1);
        proof {
            assert(prefix.drop_last() =~= headers@.subrange(0, k as int));
            assert(prefix.last() == headers@[k as int]);
        }
        let name_chars = lower_chars(&chars_of(headers[k].0.as_str()));
        let name = crate::text::string_from_chars(&name_chars);
        if safe_header_name(name.as_str()) && !sensitive_header_name(name.as_str()) {
            let bytes = headers[k].1.as_str().as_bytes_vec();
            let w = HttpRequestHeaderWitness { name, value_hash: effect_bytes_hash(bytes.as_slice()) };
            let wn = chars_of(w.name.as_str());
            let wh = chars_of(w.value_hash.as_str());
            let ghost dv = digest_view(w);
            proof {
                assert(header_digest(headers@[k as int]) == Some(dv));
            }
            let mut p: usize = 0;
            while p < out.len() && digest_not_after(&out[p], &wn, &wh)
                invariant
                    p <= out@.len(),
                    wn@ == dv.0,
                    wh@ == dv.1,
                    forall|i: int| 0 <= i < p ==> digest_le(digest_view(#[trigger] out@[i]), dv),
                decreases out@.len() - p,
            {
                p = p + 1;
            }
            let ghost old_out = out@;
            proof {
                if p < out@.len() {
                    lemma_digest_le_total(digest_view(out@[p as int]), dv);
                    assert forall|q: int| p <= q < old_out.len() implies digest_le(dv, #[trigger] digest_view(old_out[q])) by {
                        if q > p {
                            lemma_digest_le_transitive(dv, digest_view(old_out[p as int]), digest_view(old_out[q]));
                        }
                    }
                }
            }
            out.insert(p, w);
            proof {
                assert(out@.map_values(|w: HttpRequestHeaderWitness| digest_view(w)) =~= old_out.map_values(
                    |w: HttpRequestHeaderWitness| digest_view(w),
                ).insert(p as int, dv));
                vstd::seq_lib::to_multiset_insert(old_out.map_values(|w: HttpRequestHeaderWitness| digest_view(w)), p as int, dv);
                vstd::seq_lib::to_multiset_build(header_digests(headers@.subrange(0, k as int)), dv);
                assert forall|i: int, j: int| 0 <= i < j < out@.len() implies digest_le(digest_view(#[trigger] out@[i]), digest_view(#[trigger] out@[j])) by {
                    if j < p {
                        assert(out@[i] == old_out[i] && out@[j] == old_out[j]);
                    } else if j == p {
                        assert(out@[i] == old_out[i]);
                    } else if i < p {
                        assert(out@[i] == old_out[i] && out@[j] == old_out[j - 1]);
                        lemma_digest_le_transitive(digest_view(old_out[i]), dv, digest_view(old_out[j - 1]));
                    } else if i == p {
                        assert(out@[j] == old_out[j - 1]);
                    } else {
                        assert(out@[i] == old_out[i - 1] && out@[j] == old_out[j - 1]);
                    }
                }
            }
        } else {
            proof {
                assert(header_digest(headers@[k as int]) is None);
            }
        }
        k = k + 1;
    }
    proof {
        assert(headers@.subrange(0, headers@.len() as int) =~= headers@);
    }
    out
}

// ---------------------------------------------------------------------------------------
// Target records.

/// Text of an address as its `Display` writes it: dotted IPv4, or IPv6 without brackets.
pub open spec fn address_text(ip: IpAddress) -> Seq<char> {
    match ip {
        IpAddress::V4(a, b, c, d) => v4_text(a, b, c, d),
        IpAddress::V6(a, b, c, d, e, f, g, h) => v6_text(groups(a, b, c, d, e, f, g, h)),
    }
}

/// Text of an address.
pub fn address_string(ip: &IpAddress) -> (s: String)
    ensures
        s@ == address_text(*ip),
{
    match *ip {
        IpAddress::V4(a, b, c, d) => ipv4_text(a, b, c, d),
        IpAddress::V6(a, b, c, d, e, f, g, h) => {
            let gs: [u16; 8] = [a, b, c, d, e, f, g, h];
            assert(gs@ =~= groups(a, b, c, d, e, f, g, h));
            ipv6_text(gs)
        },
    }
}

/// The target record of a request sent without the SSRF guard: the URL's host, with itself
/// as the one address when it is an IP address (an IP literal), else no address (a direct
/// host); refused when the URL does not parse or has no host.
pub fn record_direct_target(request_url: &str) -> (r: Result<HttpDnsTargetWitness, HttpRequestError>)
    ensures
        match parsed_url(request_url@) {
            Some(v) if v.3 matches Some(h) && h.len() > 0 => r matches Ok(t) && Some(t.host@) == v.3 && (if is_ip_text(
                t.host@,
            ) {
                t.addresses@.len() == 1 && t.addresses@[0]@ == t.host@ && t.kind == HttpDnsTargetKind::IpLiteral
            } else {
                t.addresses@.len() == 0 && t.kind == HttpDnsTargetKind::DirectHost
            }),
            _ => r == Err::<HttpDnsTargetWitness, HttpRequestError>(HttpRequestError::TargetValidation),
        },
{
    let parts = match parse_url_parts(request_url) {
        None => {
            return Err(HttpRequestError::TargetValidation);
        },
        Some(p) => p,
    };
    let host = match &parts.host {
        None => {
            return Err(HttpRequestError::TargetValidation);
        },
        Some(h) => h.clone(),
    };
    if chars_of(host.as_str()).len() == 0 {
        return Err(HttpRequestError::TargetValidation);
    }
    if is_ip_address_text(host.as_str()) {
        let mut addresses: Vec<String> = Vec::new();
        addresses.push(host.clone());
        Ok(HttpDnsTargetWitness { host, addresses, kind: HttpDnsTargetKind::IpLiteral })
    } else {
        Ok(HttpDnsTargetWitness { host, addresses: Vec::new(), kind: HttpDnsTargetKind::DirectHost })
    }
}

/// The target record of a pinned request: the host of its `Host` header, the pinned
/// addresses as text, and whether the host itself is an IP address; refused when the
/// header does not give a host.
pub fn record_pinned_target(target: &PinnedTarget) -> (r: Result<HttpDnsTargetWitness, HttpRequestError>)
    ensures
        match parsed_url("http://"@ + target.host_header@) {
            Some(v) if v.3 is Some => r matches Ok(t) && Some(t.host@) == v.3 && t.addresses@.len()
                == target.addrs@.len() && (forall|i: int|
                0 <= i < t.addresses@.len() ==> (#[trigger] t.addresses@[i])@ == address_text(target.addrs@[i].0))
                && t.kind == (if is_ip_text(t.host@) {
                HttpDnsTargetKind::IpLiteral
            } else {
                HttpDnsTargetKind::PinnedDns
            }),
            _ => r == Err::<HttpDnsTargetWitness, HttpRequestError>(HttpRequestError::TargetValidation),
        },
{
    let mut text = to_owned_string("http://");
    text.append(target.host_header.as_str());
    let host = match parse_url_parts(text.as_str()) {
        None => {
            return Err(HttpRequestError::TargetValidation);
        },
        Some(p) => match p.host {
            None => {
                return Err(HttpRequestError::TargetValidation);
            },
            Some(h) => h,
        },
    };
    let mut addresses: Vec<String> = Vec::new();
    let mut i: usize = 0;
    while i < target.addrs.len()
        invariant
            i <= target.addrs@.len(),
            addresses@.len() == i,
            forall|j: int| 0 <= j < i ==> (#[trigger] addresses@[j])@ == address_text(target.addrs@[j].0),
        decreases target.addrs@.len() - i,
    {
        addresses.push(address_string(&target.addrs[i].0));
        i = i + 1;
    }
    let kind = if is_ip_address_text(host.as_str()) {
        HttpDnsTargetKind::IpLiteral
    } else {
        HttpDnsTargetKind::PinnedDns
    };
    Ok(HttpDnsTargetWitness { host, addresses, kind })
}

} // verus!
