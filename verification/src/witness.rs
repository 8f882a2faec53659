//! Effect witnesses: the safe, persistable evidence of what an effect did, and the integrity
//! checks that archive and replay rely on.
//!
//! A witness keeps only safe URLs, IP addresses, hashes, timings and QuickJS host-call
//! metadata; never a query, body, cookie, token or authorization value.

use vstd::prelude::*;
use vstd::string::StringSliceAdditionalSpecFns;

use crate::effect::{HttpEffectErrorKind, QuickJsErrorKind};
use crate::ip_text::{is_hex_digit, is_ip_address_text, is_ip_text};
use crate::model::{EffectKind, HttpMethod};
use crate::text::{chars_eq, chars_of, contains_seq, find_char_from, find_seq, has_char, index_of, is_whitespace, occurs_at, char_is_whitespace, chars_contain};

verus! {

/// How the addresses of an HTTP target were obtained.
#[derive(Debug, Clone, Copy, PartialEq, Eq, Structural)]
pub enum HttpDnsTargetKind {
    /// The SSRF guard resolved the name and pinned the target.
    PinnedDns,
    /// The target was an IP literal; nothing was resolved.
    IpLiteral,
    /// Only the host was observed; nothing was resolved.
    DirectHost,
}

/// Safe description of an HTTP request.
#[derive(Debug, Clone, PartialEq, Eq)]
pub struct HttpRequestWitness {
    /// Request method.
    pub method: HttpMethod,
    /// Request URL without query, fragment or user information.
    pub safe_url: String,
    /// Digests of the non-sensitive request headers.
    pub headers: Vec<HttpRequestHeaderWitness>,
    /// Digest of the request body.
    pub body: Option<HttpRequestBodyWitness>,
}

/// Digest of one non-sensitive request header.
#[derive(Debug, Clone, PartialEq, Eq)]
pub struct HttpRequestHeaderWitness {
    /// Lower-case, non-sensitive header name.
    pub name: String,
    /// BLAKE3 hash of the value.
    pub value_hash: String,
}

/// Digest of a request body.
#[derive(Debug, Clone, PartialEq, Eq)]
pub struct HttpRequestBodyWitness {
    /// BLAKE3 hash of the body.
    pub hash: String,
    /// Body length in bytes.
    pub byte_len: u64,
}

/// One redirect hop that was followed.
#[derive(Debug, Clone, PartialEq, Eq)]
pub struct HttpRedirectWitness {
    /// Status of the redirect response.
    pub status: u16,
    /// Safe source URL.
    pub from_url: String,
    /// Safe target URL.
    pub to_url: String,
}

/// Addresses of one HTTP target.
#[derive(Debug, Clone, PartialEq, Eq)]
pub struct HttpDnsTargetWitness {
    /// Host as requested, without port, user information or query.
    pub host: String,
    /// Resolved or literal IP address texts, without port.
    pub addresses: Vec<String>,
    /// How the addresses were obtained.
    pub kind: HttpDnsTargetKind,
}

/// Persistable witness of an HTTP effect.
#[derive(Debug, Clone, PartialEq, Eq)]
pub struct HttpEffectWitness {
    /// The initial request.
    pub request: HttpRequestWitness,
    /// Redirect hops followed.
    pub redirects: Vec<HttpRedirectWitness>,
    /// Addresses of each target contacted.
    pub dns_targets: Vec<HttpDnsTargetWitness>,
    /// Failure category after the effect happened; `None` on success.
    pub error: Option<HttpEffectErrorKind>,
    /// Milliseconds from start to final response, body or error.
    pub duration_ms: u64,
}

/// A runtime-provided host call made inside QuickJS.
#[derive(Debug, Clone, Copy, PartialEq, Eq, Structural)]
pub enum QuickJsHostCall {
    /// `Date.now()`: UTC epoch milliseconds returned to the script.
    Time {
        /// Epoch milliseconds.
        epoch_millis: i64,
    },
    /// `Math.random()`: bit pattern of the value returned.
    Random {
        /// IEEE-754 bits.
        value_bits: u64,
    },
}

/// One host call with its position in the call order.
#[derive(Debug, Clone, Copy, PartialEq, Eq, Structural)]
pub struct QuickJsHostCallWitness {
    /// Sequence number, counting from one.
    pub sequence: u32,
    /// The call and its safe result.
    pub call: QuickJsHostCall,
}

/// Persistable witness of a QuickJS effect: hashes of script, input and output only.
#[derive(Debug, Clone, PartialEq, Eq)]
pub struct QuickJsEffectWitness {
    /// BLAKE3 hash of the compiled script.
    pub script_hash: String,
    /// BLAKE3 hash of the input.
    pub input_hash: String,
    /// BLAKE3 hash of the typed output.
    pub output_hash: String,
    /// Archived failure category; `None` on success.
    pub error: Option<QuickJsErrorKind>,
    /// Host calls in the order they happened.
    pub host_calls: Vec<QuickJsHostCallWitness>,
    /// Milliseconds from start until the worker returned.
    pub duration_ms: u64,
}

/// Integrity witness of an extraction effect.
#[derive(Debug, Clone, PartialEq, Eq)]
pub struct ExtractEffectWitness {
    /// BLAKE3 hash of the upstream HTTP output.
    pub input_hash: String,
    /// Milliseconds spent parsing and extracting.
    pub duration_ms: u64,
}

/// Typed safe witness of an effect.
#[derive(Debug, Clone, PartialEq, Eq)]
pub enum EffectWitness {
    /// HTTP evidence.
    Http(HttpEffectWitness),
    /// QuickJS evidence.
    QuickJs(QuickJsEffectWitness),
    /// Extraction evidence.
    Extract(ExtractEffectWitness),
}

/// A witness, or the output bound to it, breaks the safety or integrity contract.
#[derive(Debug, Clone, Copy, PartialEq, Eq, Structural)]
pub enum EffectWitnessError {
    /// Output and witness are of different effect kinds.
    KindMismatch,
    /// An HTTP witness URL has a query, fragment, user information or another unsafe form.
    UnsafeHttpUrl,
    /// A DNS target host or address is not safe text.
    InvalidDnsTarget,
    /// QuickJS host-call sequence numbers are not consecutive.
    InvalidHostCallSequence,
    /// A hash is not 64 hexadecimal digits.
    InvalidHash,
    /// The QuickJS witness output hash does not match the typed output.
    QuickJsOutputHashMismatch,
}

/// A BLAKE3 hash in hexadecimal: exactly 64 hexadecimal digits.
pub open spec fn is_hash_text(s: Seq<char>) -> bool {
    s.len() == 64 && forall|i: int| 0 <= i < s.len() ==> is_hex_digit(#[trigger] s[i])
}

/// `c` may appear in a header name: an ASCII letter or digit, or `-`.
pub open spec fn is_header_name_char(c: char) -> bool {
    ('a' <= c && c <= 'z') || ('A' <= c && c <= 'Z') || ('0' <= c && c <= '9') || c == '-'
}

/// A non-empty header name made of ASCII letters, digits and `-`.
pub open spec fn is_safe_header_name(s: Seq<char>) -> bool {
    s.len() > 0 && forall|i: int| 0 <= i < s.len() ==> is_header_name_char(#[trigger] s[i])
}

/// ASCII lower-casing of one character.
pub open spec fn ascii_lower(c: char) -> char {
    if 'A' <= c && c <= 'Z' {
        ((c as u32) + 32) as char
    } else {
        c
    }
}

/// ASCII lower-casing of a string.
pub open spec fn ascii_lower_seq(s: Seq<char>) -> Seq<char> {
    s.map_values(|c: char| ascii_lower(c))
}

/// A header whose value is a credential: the four credential headers, or a name containing
/// `token`, `secret` or `api-key`, compared case-insensitively.
pub open spec fn is_sensitive_header_name(s: Seq<char>) -> bool {
    let n = ascii_lower_seq(s);
    ||| n == "authorization"@
    ||| n == "cookie"@
    ||| n == "set-cookie"@
    ||| n == "proxy-authorization"@
    ||| contains_seq(n, "token"@)
    ||| contains_seq(n, "secret"@)
    ||| contains_seq(n, "api-key"@)
}

/// The `://` separator.
pub open spec fn scheme_separator() -> Seq<char> {
    seq![':', '/', '/']
}

/// A safe HTTP URL: its scheme (before the first `://`) is `http` or `https`, its
/// authority (up to the next `/`) is non-empty without `@`, and the URL has no `?`, `#`,
/// carriage return or line feed.
pub open spec fn is_safe_http_url(u: Seq<char>) -> bool {
    &&& exists|p: int|
        #[trigger] occurs_at(u, scheme_separator(), p) && (forall|q: int|
            0 <= q < p ==> !occurs_at(u, scheme_separator(), q)) && {
            let scheme = u.subrange(0, p);
            let rest = u.subrange(p + 3, u.len() as int);
            let authority = rest.subrange(0, index_of(rest, '/'));
            &&& (scheme == seq!['h', 't', 't', 'p'] || scheme == seq!['h', 't', 't', 'p', 's'])
            &&& authority.len() > 0
            &&& !authority.contains('@')
        }
    &&& !u.contains('?')
    &&& !u.contains('#')
    &&& !u.contains('\r')
    &&& !u.contains('\n')
}

/// The header digest is acceptable: a safe, non-sensitive name and a hash.
pub open spec fn header_witness_ok(h: HttpRequestHeaderWitness) -> bool {
    is_safe_header_name(h.name@) && !is_sensitive_header_name(h.name@) && is_hash_text(h.value_hash@)
}

/// The redirect hop is acceptable: a 3xx status between safe URLs.
pub open spec fn redirect_witness_ok(r: HttpRedirectWitness) -> bool {
    300 <= r.status < 400 && is_safe_http_url(r.from_url@) && is_safe_http_url(r.to_url@)
}

/// `c` may not appear in a DNS target host.
pub open spec fn is_forbidden_host_char(c: char) -> bool {
    c == '?' || c == '#' || c == '@' || c == '\r' || c == '\n' || is_whitespace(c)
}

/// The DNS target is acceptable: a non-empty host without whitespace, `?`, `#` or `@`,
/// addresses that are all IP address texts, and exactly one address for an IP literal.
pub open spec fn dns_target_ok(t: HttpDnsTargetWitness) -> bool {
    &&& t.host@.len() > 0
    &&& forall|i: int| 0 <= i < t.host@.len() ==> !is_forbidden_host_char(#[trigger] t.host@[i])
    &&& forall|i: int| 0 <= i < t.addresses@.len() ==> is_ip_text(#[trigger] t.addresses@[i]@)
    &&& (t.kind == HttpDnsTargetKind::IpLiteral ==> t.addresses@.len() == 1)
}

/// Result of checking an HTTP witness. The request URL is checked first, then the header
/// and body hashes, then the redirects, then the DNS targets.
pub open spec fn http_witness_result(w: HttpEffectWitness) -> Result<(), EffectWitnessError> {
    if !is_safe_http_url(w.request.safe_url@) {
        Err(EffectWitnessError::UnsafeHttpUrl)
    } else if !(forall|i: int| 0 <= i < w.request.headers@.len() ==> header_witness_ok(#[trigger] w.request.headers@[i]))
        || (w.request.body matches Some(b) && !is_hash_text(b.hash@)) {
        Err(EffectWitnessError::InvalidHash)
    } else if !(forall|i: int| 0 <= i < w.redirects@.len() ==> redirect_witness_ok(#[trigger] w.redirects@[i])) {
        Err(EffectWitnessError::UnsafeHttpUrl)
    } else if !(forall|i: int| 0 <= i < w.dns_targets@.len() ==> dns_target_ok(#[trigger] w.dns_targets@[i])) {
        Err(EffectWitnessError::InvalidDnsTarget)
    } else {
        Ok(())
    }
}

/// Result of checking a QuickJS witness: the three hashes first, then that host calls are
/// numbered 1, 2, 3, ... in order.
pub open spec fn quickjs_witness_result(w: QuickJsEffectWitness) -> Result<(), EffectWitnessError> {
    if !is_hash_text(w.script_hash@) || !is_hash_text(w.input_hash@) || !is_hash_text(w.output_hash@) {
        Err(EffectWitnessError::InvalidHash)
    } else if !(forall|i: int| 0 <= i < w.host_calls@.len() ==> (#[trigger] w.host_calls@[i]).sequence == i + 1) {
        Err(EffectWitnessError::InvalidHostCallSequence)
    } else {
        Ok(())
    }
}

/// Result of checking any witness.
pub open spec fn witness_result(w: EffectWitness) -> Result<(), EffectWitnessError> {
    match w {
        EffectWitness::Http(h) => http_witness_result(h),
        EffectWitness::QuickJs(q) => quickjs_witness_result(q),
        EffectWitness::Extract(e) => if is_hash_text(e.input_hash@) {
            Ok(())
        } else {
            Err(EffectWitnessError::InvalidHash)
        },
    }
}

/// The effect kind a witness belongs to.
pub open spec fn witness_kind(w: EffectWitness) -> EffectKind {
    match w {
        EffectWitness::Http(_) => EffectKind::Http,
        EffectWitness::QuickJs(_) => EffectKind::QuickJs,
        EffectWitness::Extract(_) => EffectKind::Extract,
    }
}

/// Checks that `hash` is 64 hexadecimal digits.
pub fn validate_hash(hash: &str) -> (r: Result<(), EffectWitnessError>)
    ensures
        r == (if is_hash_text(hash@) { Ok(()) } else { Err(EffectWitnessError::InvalidHash) }),
{
    let s = chars_of(hash);
    if s.len() != 64 {
        return Err(EffectWitnessError::InvalidHash);
    }
    let mut i: usize = 0;
    while i < s.len()
        invariant
            s@ == hash@,
            i <= s@.len(),
            forall|j: int| 0 <= j < i ==> is_hex_digit(#[trigger] s@[j]),
        decreases s@.len() - i,
    {
        let c = s[i];
        if !(('0' <= c && c <= '9') || ('a' <= c && c <= 'f') || ('A' <= c && c <= 'F')) {
            return Err(EffectWitnessError::InvalidHash);
        }
        i = i + 1;
    }
    Ok(())
}

/// `name` is a non-empty header name of ASCII letters, digits and `-`.
pub fn safe_header_name(name: &str) -> (b: bool)
    ensures
        b == is_safe_header_name(name@),
{
    let s = chars_of(name);
    if s.len() == 0 {
        return false;
    }
    let mut i: usize = 0;
    while i < s.len()
        invariant
            s@ == name@,
            i <= s@.len(),
            forall|j: int| 0 <= j < i ==> is_header_name_char(#[trigger] s@[j]),
        decreases s@.len() - i,
    {
        let c = s[i];
        if !(('a' <= c && c <= 'z') || ('A' <= c && c <= 'Z') || ('0' <= c && c <= '9') || c == '-') {
            return false;
        }
        i = i + 1;
    }
    true
}

fn ascii_lower_char(c: char) -> (r: char)
    ensures
        r == ascii_lower(c),
{
    if 'A' <= c && c <= 'Z' {
        let u: u8 = c as u8;
        let l: u8 = u + 32;
        l as char
    } else {
        c
    }
}

fn ascii_lower_chars(s: &Vec<char>) -> (r: Vec<char>)
    ensures
        r@ == ascii_lower_seq(s@),
{
    let mut r: Vec<char> = Vec::new();
    let mut i: usize = 0;
    while i < s.len()
        invariant
            i <= s@.len(),
            r@ == ascii_lower_seq(s@.subrange(0, i as int)),
        decreases s@.len() - i,
    {
        r.push(ascii_lower_char(s[i]));
        proof {
            assert(ascii_lower_seq(s@.subrange(0, i + 1)) =~= ascii_lower_seq(s@.subrange(0, i as int)).push(ascii_lower(s@[i as int])));
        }
        i = i + 1;
    }
    proof {
        assert(s@.subrange(0, s@.len() as int) =~= s@);
    }
    r
}

/// `name` names a credential header (compared case-insensitively).
pub fn sensitive_header_name(name: &str) -> (b: bool)
    ensures
        b == is_sensitive_header_name(name@),
{
    let n = ascii_lower_chars(&chars_of(name));
    chars_eq(&n, &chars_of("authorization")) || chars_eq(&n, &chars_of("cookie")) || chars_eq(&n, &chars_of("set-cookie"))
        || chars_eq(&n, &chars_of("proxy-authorization")) || chars_contain(&n, &chars_of("token"))
        || chars_contain(&n, &chars_of("secret")) || chars_contain(&n, &chars_of("api-key"))
}

/// Checks that `url` is a safe HTTP URL.
pub fn validate_safe_http_url(url: &str) -> (r: Result<(), EffectWitnessError>)
    ensures
        r == (if is_safe_http_url(url@) { Ok(()) } else { Err(EffectWitnessError::UnsafeHttpUrl) }),
{
    let u = chars_of(url);
    let sep: Vec<char> = vec![':', '/', '/'];
    proof {
        assert(sep@ =~= scheme_separator());
    }
    let bad = has_char(&u, '?') || has_char(&u, '#') || has_char(&u, '\r') || has_char(&u, '\n');
    match find_seq(&u, &sep) {
        None => {
            Err(EffectWitnessError::UnsafeHttpUrl)
        },
        Some(p) => {
            assert(occurs_at(u@, sep@, p as int));
            let ul = u.len();
            assert(p + 3 <= ul);
            let slash = find_char_from(&u, '/', p + 3);
            let ghost rest = u@.subrange(p + 3, u@.len() as int);
            proof {
                assert(u@.skip(p + 3) =~= rest);
            }
            let scheme_ok = (p == 4 && u[0] == 'h' && u[1] == 't' && u[2] == 't' && u[3] == 'p') || (p == 5
                && u[0] == 'h' && u[1] == 't' && u[2] == 't' && u[3] == 'p' && u[4] == 's');
            proof {
                let scheme = u@.subrange(0, p as int);
                if p == 4 {
                    assert(scheme == seq!['h', 't', 't', 'p'] <==> (u@[0] == 'h' && u@[1] == 't' && u@[2] == 't' && u@[3] == 'p')) by {
                        if u@[0] == 'h' && u@[1] == 't' && u@[2] == 't' && u@[3] == 'p' {
                            assert(scheme =~= seq!['h', 't', 't', 'p']);
                        }
                        if scheme == seq!['h', 't', 't', 'p'] {
                            assert(scheme[0] == 'h' && scheme[1] == 't' && scheme[2] == 't' && scheme[3] == 'p');
                        }
                    }
                    assert(scheme.len() != 5);
                } else if p == 5 {
                    assert(scheme == seq!['h', 't', 't', 'p', 's'] <==> (u@[0] == 'h' && u@[1] == 't' && u@[2] == 't' && u@[3] == 'p' && u@[4] == 's')) by {
                        if u@[0] == 'h' && u@[1] == 't' && u@[2] == 't' && u@[3] == 'p' && u@[4] == 's' {
                            assert(scheme =~= seq!['h', 't', 't', 'p', 's']);
                        }
                        if scheme == seq!['h', 't', 't', 'p', 's'] {
                            assert(scheme[0] == 'h' && scheme[1] == 't' && scheme[2] == 't' && scheme[3] == 'p' && scheme[4] == 's');
                        }
                    }
                    assert(scheme.len() != 4);
                } else {
                    assert(scheme.len() != 4 && scheme.len() != 5);
                }
            }
            let mut at = false;
            let mut k: usize = p + 3;
            while k < slash
                invariant
                    p + 3 <= k <= slash <= u@.len(),
                    at == exists|j: int| p + 3 <= j < k && u@[j] == '@',
                decreases slash - k,
            {
                if u[k] == '@' {
                    at = true;
                }
                k = k + 1;
            }
            proof {
                let authority = rest.subrange(0, index_of(rest, '/'));
                assert(authority =~= u@.subrange(p + 3, slash as int));
                if at {
                    let j = choose|j: int| p + 3 <= j < slash && u@[j] == '@';
                    assert(authority[j - (p + 3)] == '@');
                }
                if authority.contains('@') {
                    let j = choose|j: int| 0 <= j < authority.len() && authority[j] == '@';
                    assert(u@[p + 3 + j] == '@');
                }
                if !(scheme_ok && slash > p + 3 && !at) && is_safe_http_url(u@) {
                    let p2 = choose|p2: int|
                        #[trigger] occurs_at(u@, scheme_separator(), p2) && (forall|q: int|
                            0 <= q < p2 ==> !occurs_at(u@, scheme_separator(), q)) && {
                            let scheme = u@.subrange(0, p2);
                            let rest = u@.subrange(p2 + 3, u@.len() as int);
                            let authority = rest.subrange(0, index_of(rest, '/'));
                            &&& (scheme == seq!['h', 't', 't', 'p'] || scheme == seq!['h', 't', 't', 'p', 's'])
                            &&& authority.len() > 0
                            &&& !authority.contains('@')
                        };
                    if p2 < p {
                        assert(!occurs_at(u@, scheme_separator(), p2));
                    } else if p2 > p {
                        assert(!occurs_at(u@, scheme_separator(), p as int));
                    }
                }
            }
            if scheme_ok && slash > p + 3 && !at && !bad {
                Ok(())
            } else {
                Err(EffectWitnessError::UnsafeHttpUrl)
            }
        },
    }
}

/// Checks one DNS target.
fn dns_target_valid(t: &HttpDnsTargetWitness) -> (b: bool)
    ensures
        b == dns_target_ok(*t),
{
    let h = chars_of(&t.host);
    if h.len() == 0 {
        return false;
    }
    let mut i: usize = 0;
    while i < h.len()
        invariant
            h@ == t.host@,
            i <= h@.len(),
            forall|j: int| 0 <= j < i ==> !is_forbidden_host_char(#[trigger] h@[j]),
        decreases h@.len() - i,
    {
        let c = h[i];
        if c == '?' || c == '#' || c == '@' || c == '\r' || c == '\n' || char_is_whitespace(c) {
            return false;
        }
        i = i + 1;
    }
    let mut k: usize = 0;
    while k < t.addresses.len()
        invariant
            k <= t.addresses@.len(),
            forall|j: int| 0 <= j < k ==> is_ip_text(#[trigger] t.addresses@[j]@),
        decreases t.addresses@.len() - k,
    {
        if !is_ip_address_text(&t.addresses[k]) {
            return false;
        }
        k = k + 1;
    }
    match t.kind {
        HttpDnsTargetKind::IpLiteral => t.addresses.len() == 1,
        _ => true,
    }
}

/// Checks an HTTP witness.
pub fn validate_http_witness(w: &HttpEffectWitness) -> (r: Result<(), EffectWitnessError>)
    ensures
        r == http_witness_result(*w),
{
    if validate_safe_http_url(&w.request.safe_url).is_err() {
        return Err(EffectWitnessError::UnsafeHttpUrl);
    }
    let mut i: usize = 0;
    while i < w.request.headers.len()
        invariant
            is_safe_http_url(w.request.safe_url@),
            i <= w.request.headers@.len(),
            forall|j: int| 0 <= j < i ==> header_witness_ok(#[trigger] w.request.headers@[j]),
        decreases w.request.headers@.len() - i,
    {
        let h = &w.request.headers[i];
        if !safe_header_name(&h.name) || sensitive_header_name(&h.name) || validate_hash(&h.value_hash).is_err() {
            assert(!header_witness_ok(w.request.headers@[i as int]));
            return Err(EffectWitnessError::InvalidHash);
        }
        i = i + 1;
    }
    match &w.request.body {
        Some(b) => {
            if validate_hash(&b.hash).is_err() {
                return Err(EffectWitnessError::InvalidHash);
            }
        },
        None => {},
    }
    let mut r: usize = 0;
    while r < w.redirects.len()
        invariant
            http_witness_result(*w) == (if !(forall|i: int| 0 <= i < w.redirects@.len() ==> redirect_witness_ok(#[trigger] w.redirects@[i])) {
                Err(EffectWitnessError::UnsafeHttpUrl)
            } else if !(forall|i: int| 0 <= i < w.dns_targets@.len() ==> dns_target_ok(#[trigger] w.dns_targets@[i])) {
                Err(EffectWitnessError::InvalidDnsTarget)
            } else {
                Ok(())
            }),
            r <= w.redirects@.len(),
            forall|j: int| 0 <= j < r ==> redirect_witness_ok(#[trigger] w.redirects@[j]),
        decreases w.redirects@.len() - r,
    {
        let hop = &w.redirects[r];
        if !(300 <= hop.status && hop.status < 400) || validate_safe_http_url(&hop.from_url).is_err()
            || validate_safe_http_url(&hop.to_url).is_err() {
            assert(!redirect_witness_ok(w.redirects@[r as int]));
            return Err(EffectWitnessError::UnsafeHttpUrl);
        }
        r = r + 1;
    }
    let mut d: usize = 0;
    while d < w.dns_targets.len()
        invariant
            http_witness_result(*w) == (if !(forall|i: int| 0 <= i < w.dns_targets@.len() ==> dns_target_ok(#[trigger] w.dns_targets@[i])) {
                Err(EffectWitnessError::InvalidDnsTarget)
            } else {
                Ok(())
            }),
            d <= w.dns_targets@.len(),
            forall|j: int| 0 <= j < d ==> dns_target_ok(#[trigger] w.dns_targets@[j]),
        decreases w.dns_targets@.len() - d,
    {
        if !dns_target_valid(&w.dns_targets[d]) {
            assert(!dns_target_ok(w.dns_targets@[d as int]));
            return Err(EffectWitnessError::InvalidDnsTarget);
        }
        d = d + 1;
    }
    Ok(())
}

/// Checks a QuickJS witness.
pub fn validate_quickjs_witness(w: &QuickJsEffectWitness) -> (r: Result<(), EffectWitnessError>)
    ensures
        r == quickjs_witness_result(*w),
{
    if validate_hash(&w.script_hash).is_err() || validate_hash(&w.input_hash).is_err() || validate_hash(
        &w.output_hash,
    ).is_err() {
        return Err(EffectWitnessError::InvalidHash);
    }
    let mut i: usize = 0;
    while i < w.host_calls.len()
        invariant
            quickjs_witness_result(*w) == (if !(forall|i: int| 0 <= i < w.host_calls@.len() ==> (#[trigger] w.host_calls@[i]).sequence == i + 1) {
                Err(EffectWitnessError::InvalidHostCallSequence)
            } else {
                Ok(())
            }),
            i <= w.host_calls@.len(),
            forall|j: int| 0 <= j < i ==> (#[trigger] w.host_calls@[j]).sequence == j + 1,
        decreases w.host_calls@.len() - i,
    {
        let seq_no = w.host_calls[i].sequence;
        if i >= 4294967295 || seq_no as usize != i + 1 {
            assert(w.host_calls@[i as int].sequence != i + 1);
            return Err(EffectWitnessError::InvalidHostCallSequence);
        }
        i = i + 1;
    }
    Ok(())
}

impl EffectWitness {
    /// The effect kind this witness belongs to.
    pub fn kind(&self) -> (k: EffectKind)
        ensures
            k == witness_kind(*self),
    {
        match self {
            EffectWitness::Http(_) => EffectKind::Http,
            EffectWitness::QuickJs(_) => EffectKind::QuickJs,
            EffectWitness::Extract(_) => EffectKind::Extract,
        }
    }

    /// Checks the witness's safe fields and internal structure.
    pub fn validate(&self) -> (r: Result<(), EffectWitnessError>)
        ensures
            r == witness_result(*self),
    {
        match self {
            EffectWitness::Http(w) => validate_http_witness(w),
            EffectWitness::QuickJs(w) => validate_quickjs_witness(w),
            EffectWitness::Extract(w) => validate_hash(&w.input_hash),
        }
    }
}

/// How sensitive archived capture material is.
#[derive(Debug, Clone, Copy, PartialEq, Eq, Structural)]
pub enum EffectCaptureMaterialSensitivity {
    /// The raw bytes must go into an encrypted secret artifact.
    Secret,
}

/// Capture material that never enters a witness: the raw HTTP request body, on its way
/// from the live handler to the archive.
#[derive(Clone, Default, PartialEq, Eq)]
pub struct EffectCaptureMaterial {
    request_body: Option<Vec<u8>>,
}

impl EffectCaptureMaterial {
    /// The raw request body, as handed over by the HTTP handler.
    pub closed spec fn body_view(&self) -> Option<Seq<u8>> {
        match self.request_body {
            Some(b) => Some(b@),
            None => None,
        }
    }

    /// Material holding the given request body.
    pub fn from_http_request_body(request_body: Option<Vec<u8>>) -> (m: EffectCaptureMaterial)
        ensures
            m.body_view() == (match request_body {
                Some(b) => Some(b@),
                None => None::<Seq<u8>>,
            }),
    {
        EffectCaptureMaterial { request_body }
    }

    /// The raw request body, only for writing to the archive.
    pub fn request_body(&self) -> (r: Option<&[u8]>)
        ensures
            match r {
                Some(b) => self.body_view() == Some(b@),
                None => self.body_view() is None,
            },
    {
        match &self.request_body {
            Some(b) => Some(b.as_slice()),
            None => None,
        }
    }

    /// The archive sensitivity the request body must get: secret whenever there is one.
    pub fn request_body_sensitivity(&self) -> (r: Option<EffectCaptureMaterialSensitivity>)
        ensures
            r == (if self.body_view() is Some {
                Some(EffectCaptureMaterialSensitivity::Secret)
            } else {
                None
            }),
    {
        match &self.request_body {
            Some(_) => Some(EffectCaptureMaterialSensitivity::Secret),
            None => None,
        }
    }
}

/// The lowercase hexadecimal BLAKE3 hash of `bytes`.
pub uninterp spec fn blake3_hex(bytes: Seq<u8>) -> Seq<char>;

/// `c` is a lowercase hexadecimal digit.
pub open spec fn is_lower_hex_digit(c: char) -> bool {
    ('0' <= c && c <= '9') || ('a' <= c && c <= 'f')
}

/// Calls `blake3::hash` and `Hash::to_hex`. Claimed: the result is the named hash of the
/// bytes, and (as `to_hex` writes each of the 32 output bytes as two digits from
/// `0123456789abcdef`) it is 64 lowercase hexadecimal digits.
#[verifier::external_body]
fn blake3_hex_of(bytes: &[u8]) -> (h: String)
    ensures
        h@ == blake3_hex(bytes@),
        h@.len() == 64,
        forall|i: int| 0 <= i < 64 ==> is_lower_hex_digit(#[trigger] h@[i]),
{
    blake3::hash(bytes).to_hex().to_string()
}

/// BLAKE3 hex of arbitrary bytes; only the hash may go into a safe witness.
pub fn effect_bytes_hash(bytes: &[u8]) -> (h: String)
    ensures
        h@ == blake3_hex(bytes@),
        is_hash_text(h@),
{
    blake3_hex_of(bytes)
}

/// BLAKE3 hex of a compiled QuickJS script's UTF-8 bytes.
pub fn quickjs_script_hash(code: &str) -> (h: String)
    ensures
        h@ == blake3_hex(code.spec_bytes()),
        is_hash_text(h@),
{
    let bytes = code.as_bytes_vec();
    blake3_hex_of(bytes.as_slice())
}

} // verus!
