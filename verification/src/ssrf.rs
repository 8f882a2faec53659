//! SSRF guard: which target addresses are refused, and how a checked target is pinned.
//!
//! Refused: IPv4 loopback, link-local, private, unspecified, broadcast, `0.0.0.0/8`,
//! CGNAT `100.64.0.0/10` and the cloud metadata endpoints; IPv6 loopback, unspecified,
//! link-local `fe80::/10`, unique-local `fc00::/7`, IPv4-mapped addresses whose IPv4 address
//! is refused, and IPv4-compatible addresses. Names are resolved by the caller; the pinned
//! target then connects to the checked address only.

use vstd::prelude::*;
use vstd::string::StringExecFns;

use crate::http_util::{decimal, u32_to_decimal};
use crate::ip_text::IpAddress;
use crate::text::{string_from_chars, to_owned_string};

verus! {

/// The IPv4 address is refused.
pub open spec fn blocked_v4(a: u8, b: u8, c: u8, d: u8) -> bool {
    ||| a == 127
    ||| (a == 169 && b == 254)
    ||| a == 10
    ||| (a == 172 && 16 <= b <= 31)
    ||| (a == 192 && b == 168)
    ||| (a == 0 && b == 0 && c == 0 && d == 0)
    ||| (a == 255 && b == 255 && c == 255 && d == 255)
    ||| a == 0
    ||| (a == 100 && 64 <= b <= 127)
    ||| (a == 169 && b == 254 && c == 169 && d == 254)
    ||| (a == 100 && b == 100 && c == 100 && d == 200)
}

/// The IPv6 address is an IPv4-mapped address (`::ffff:a.b.c.d`) whose IPv4 address is
/// refused.
pub open spec fn mapped_blocked(s: Seq<u16>) -> bool {
    s[0] == 0 && s[1] == 0 && s[2] == 0 && s[3] == 0 && s[4] == 0 && s[5] == 0xffff && blocked_v4(
        (s[6] / 256) as u8,
        (s[6] % 256) as u8,
        (s[7] / 256) as u8,
        (s[7] % 256) as u8,
    )
}

/// The IPv6 address is refused.
pub open spec fn blocked_v6(s: Seq<u16>) -> bool {
    ||| (s[0] == 0 && s[1] == 0 && s[2] == 0 && s[3] == 0 && s[4] == 0 && s[5] == 0 && s[6] == 0 && s[7] == 1)
    ||| (s[0] == 0 && s[1] == 0 && s[2] == 0 && s[3] == 0 && s[4] == 0 && s[5] == 0 && s[6] == 0 && s[7] == 0)
    ||| (0xfe80 <= s[0] <= 0xfebf)
    ||| (0xfc00 <= s[0] <= 0xfdff)
    ||| mapped_blocked(s)
    ||| (s[0] == 0 && s[1] == 0 && s[2] == 0 && s[3] == 0 && s[4] == 0 && s[5] != 0xffff)
}

/// The eight groups of an IPv6 address.
pub open spec fn groups(a: u16, b: u16, c: u16, d: u16, e: u16, f: u16, g: u16, h: u16) -> Seq<u16> {
    seq![a, b, c, d, e, f, g, h]
}

/// The address is refused.
pub open spec fn blocked(ip: IpAddress) -> bool {
    match ip {
        IpAddress::V4(a, b, c, d) => blocked_v4(a, b, c, d),
        IpAddress::V6(a, b, c, d, e, f, g, h) => blocked_v6(groups(a, b, c, d, e, f, g, h)),
    }
}

fn is_blocked_ipv4(a: u8, b: u8, c: u8, d: u8) -> (r: bool)
    ensures
        r == blocked_v4(a, b, c, d),
{
    a == 127 || (a == 169 && b == 254) || a == 10 || (a == 172 && 16 <= b && b <= 31) || (a == 192 && b == 168)
        || (a == 0 && b == 0 && c == 0 && d == 0) || (a == 255 && b == 255 && c == 255 && d == 255) || a == 0 || (
    a == 100 && 64 <= b && b <= 127) || (a == 169 && b == 254 && c == 169 && d == 254) || (a == 100 && b == 100
        && c == 100 && d == 200)
}

/// `fe80::/10` link-local.
fn is_ipv6_link_local(s0: u16) -> (r: bool)
    ensures
        r == (0xfe80 <= s0 <= 0xfebf),
{
    0xfe80 <= s0 && s0 <= 0xfebf
}

/// `fc00::/7` unique-local.
fn is_ipv6_unique_local(s0: u16) -> (r: bool)
    ensures
        r == (0xfc00 <= s0 <= 0xfdff),
{
    0xfc00 <= s0 && s0 <= 0xfdff
}

fn is_blocked_ipv6(s: [u16; 8]) -> (r: bool)
    ensures
        r == blocked_v6(s@),
{
    let loopback = s[0] == 0 && s[1] == 0 && s[2] == 0 && s[3] == 0 && s[4] == 0 && s[5] == 0 && s[6] == 0 && s[7] == 1;
    let unspecified = s[0] == 0 && s[1] == 0 && s[2] == 0 && s[3] == 0 && s[4] == 0 && s[5] == 0 && s[6] == 0
        && s[7] == 0;
    let mapped = if s[0] == 0 && s[1] == 0 && s[2] == 0 && s[3] == 0 && s[4] == 0 && s[5] == 0xffff {
        is_blocked_ipv4((s[6] / 256) as u8, (s[6] % 256) as u8, (s[7] / 256) as u8, (s[7] % 256) as u8)
    } else {
        false
    };
    let compatible = s[0] == 0 && s[1] == 0 && s[2] == 0 && s[3] == 0 && s[4] == 0 && s[5] != 0xffff;
    loopback || unspecified || is_ipv6_link_local(s[0]) || is_ipv6_unique_local(s[0]) || mapped || compatible
}

/// Whether the SSRF guard refuses the address.
pub fn is_blocked_ip(ip: &IpAddress) -> (r: bool)
    ensures
        r == blocked(*ip),
{
    match *ip {
        IpAddress::V4(a, b, c, d) => is_blocked_ipv4(a, b, c, d),
        IpAddress::V6(a, b, c, d, e, f, g, h) => {
            let s: [u16; 8] = [a, b, c, d, e, f, g, h];
            assert(s@ =~= groups(a, b, c, d, e, f, g, h));
            is_blocked_ipv6(s)
        },
    }
}

// ---------------------------------------------------------------------------------------
// Address text.

/// Lower-case hexadecimal digit of `d < 16`.
pub open spec fn lower_hex_char(d: nat) -> char {
    if d < 10 {
        (48 + d) as char
    } else {
        (87 + d) as char
    }
}

/// Lower-case hexadecimal text of `n`, without leading zeros.
pub open spec fn hex_text(n: nat) -> Seq<char>
    decreases n,
{
    if n < 16 {
        seq![lower_hex_char(n)]
    } else {
        hex_text(n / 16) + seq![lower_hex_char(n % 16)]
    }
}

/// Dotted-decimal text of an IPv4 address.
pub open spec fn v4_text(a: u8, b: u8, c: u8, d: u8) -> Seq<char> {
    decimal(a as nat) + seq!['.'] + decimal(b as nat) + seq!['.'] + decimal(c as nat) + seq!['.'] + decimal(d as nat)
}

/// Groups in hexadecimal, joined by `:`.
pub open spec fn join_groups(g: Seq<u16>) -> Seq<char>
    decreases g.len(),
{
    if g.len() == 0 {
        Seq::empty()
    } else if g.len() == 1 {
        hex_text(g[0] as nat)
    } else {
        join_groups(g.drop_last()) + seq![':'] + hex_text(g.last() as nat)
    }
}

/// Scanning groups `0..i`: the longest zero run so far (first one on ties) as
/// `(start, len)`, and the zero run ending at `i` as `(start, len)`.
pub open spec fn zero_scan(g: Seq<u16>, i: int) -> (int, int, int, int)
    decreases i,
{
    if i <= 0 {
        (0, 0, 0, 0)
    } else {
        let (ls, ll, cs, cl) = zero_scan(g, i - 1);
        if g[i - 1] == 0 {
            let (ncs, ncl) = if cl == 0 { (i - 1, 1) } else { (cs, cl + 1) };
            if ncl > ll { (ncs, ncl, ncs, ncl) } else { (ls, ll, ncs, ncl) }
        } else {
            (ls, ll, 0, 0)
        }
    }
}

/// Text of an IPv6 address: `::ffff:` and dotted IPv4 for IPv4-mapped addresses;
/// otherwise hexadecimal groups with the first longest run of two or more zero groups
/// written as `::`.
pub open spec fn v6_text(g: Seq<u16>) -> Seq<char> {
    if g[0] == 0 && g[1] == 0 && g[2] == 0 && g[3] == 0 && g[4] == 0 && g[5] == 0xffff {
        "::ffff:"@ + v4_text((g[6] / 256) as u8, (g[6] % 256) as u8, (g[7] / 256) as u8, (g[7] % 256) as u8)
    } else {
        let (start, len, _cs, _cl) = zero_scan(g, 8);
        if len > 1 {
            join_groups(g.subrange(0, start)) + seq![':', ':'] + join_groups(g.subrange(start + len, 8))
        } else {
            join_groups(g)
        }
    }
}

/// Text of an address as it stands in a URL host: IPv6 in brackets.
pub open spec fn url_host_text(ip: IpAddress) -> Seq<char> {
    match ip {
        IpAddress::V4(a, b, c, d) => v4_text(a, b, c, d),
        IpAddress::V6(a, b, c, d, e, f, g, h) => seq!['['] + v6_text(groups(a, b, c, d, e, f, g, h)) + seq![']'],
    }
}

fn lower_hex_digit(d: u32) -> (c: char)
    requires
        d < 16,
    ensures
        c == lower_hex_char(d as nat),
{
    if d < 10 {
        ((48 + d) as u8) as char
    } else {
        ((87 + d) as u8) as char
    }
}

fn push_hex(out: &mut Vec<char>, n: u32)
    ensures
        final(out)@ == old(out)@ + hex_text(n as nat),
    decreases n,
{
    if n < 16 {
        out.push(lower_hex_digit(n));
    } else {
        push_hex(out, n / 16);
        out.push(lower_hex_digit(n % 16));
        proof {
            assert(old(out)@ + hex_text((n / 16) as nat) + seq![lower_hex_char((n % 16) as nat)] =~= old(out)@ + hex_text(n as nat));
        }
    }
}

fn push_str_chars(out: &mut Vec<char>, s: &str)
    ensures
        final(out)@ == old(out)@ + s@,
{
    let c = crate::text::chars_of(s);
    let mut i: usize = 0;
    while i < c.len()
        invariant
            c@ == s@,
            i <= c@.len(),
            out@ == old(out)@ + c@.subrange(0, i as int),
        decreases c@.len() - i,
    {
        out.push(c[i]);
        proof {
            assert(old(out)@ + c@.subrange(0, i + 1) =~= old(out)@ + c@.subrange(0, i as int) + seq![c@[i as int]]);
        }
        i = i + 1;
    }
    proof {
        assert(c@.subrange(0, c@.len() as int) =~= c@);
    }
}

fn push_v4(out: &mut Vec<char>, a: u8, b: u8, c: u8, d: u8)
    ensures
        final(out)@ == old(out)@ + v4_text(a, b, c, d),
{
    push_str_chars(out, u32_to_decimal(a as u32).as_str());
    out.push('.');
    push_str_chars(out, u32_to_decimal(b as u32).as_str());
    out.push('.');
    push_str_chars(out, u32_to_decimal(c as u32).as_str());
    out.push('.');
    push_str_chars(out, u32_to_decimal(d as u32).as_str());
    proof {
        assert(out@ =~= old(out)@ + v4_text(a, b, c, d));
    }
}

fn push_groups(out: &mut Vec<char>, g: &[u16; 8], from: usize, to: usize)
    requires
        from <= to <= 8,
    ensures
        final(out)@ == old(out)@ + join_groups(g@.subrange(from as int, to as int)),
{
    let mut i: usize = from;
    while i < to
        invariant
            from <= i <= to <= 8,
            out@ == old(out)@ + join_groups(g@.subrange(from as int, i as int)),
        decreases to - i,
    {
        let ghost before = out@;
        if i > from {
            out.push(':');
        }
        push_hex(out, g[i] as u32);
        proof {
            let sub = g@.subrange(from as int, i + 1);
            assert(sub.drop_last() =~= g@.subrange(from as int, i as int));
            assert(sub.last() == g@[i as int]);
            if i > from {
                assert(out@ =~= old(out)@ + join_groups(sub));
            } else {
                assert(sub.len() == 1);
                assert(out@ =~= old(out)@ + join_groups(sub));
            }
        }
        i = i + 1;
    }
}

/// Text of an IPv6 address.
pub fn ipv6_text(g: [u16; 8]) -> (s: String)
    ensures
        s@ == v6_text(g@),
{
    let mut out: Vec<char> = Vec::new();
    if g[0] == 0 && g[1] == 0 && g[2] == 0 && g[3] == 0 && g[4] == 0 && g[5] == 0xffff {
        push_str_chars(&mut out, "::ffff:");
        push_v4(&mut out, (g[6] / 256) as u8, (g[6] % 256) as u8, (g[7] / 256) as u8, (g[7] % 256) as u8);
        return string_from_chars(&out);
    }
    let mut ls: usize = 0;
    let mut ll: usize = 0;
    let mut cs: usize = 0;
    let mut cl: usize = 0;
    let mut i: usize = 0;
    while i < 8
        invariant
            i <= 8,
            zero_scan(g@, i as int) == (ls as int, ll as int, cs as int, cl as int),
            ls + ll <= i,
            cs + cl <= i,
        decreases 8 - i,
    {
        if g[i] == 0 {
            if cl == 0 {
                cs = i;
                cl = 1;
            } else {
                cl = cl + 1;
            }
            if cl > ll {
                ls = cs;
                ll = cl;
            }
        } else {
            cs = 0;
            cl = 0;
        }
        i = i + 1;
    }
    if ll > 1 {
        push_groups(&mut out, &g, 0, ls);
        out.push(':');
        out.push(':');
        push_groups(&mut out, &g, ls + ll, 8);
        proof {
            assert(out@ =~= join_groups(g@.subrange(0, ls as int)) + seq![':', ':'] + join_groups(g@.subrange(ls + ll, 8)));
        }
    } else {
        push_groups(&mut out, &g, 0, 8);
        proof {
            assert(g@.subrange(0, 8) =~= g@);
        }
    }
    string_from_chars(&out)
}

/// Text of an IPv4 address.
pub fn ipv4_text(a: u8, b: u8, c: u8, d: u8) -> (s: String)
    ensures
        s@ == v4_text(a, b, c, d),
{
    let mut out: Vec<char> = Vec::new();
    push_v4(&mut out, a, b, c, d);
    string_from_chars(&out)
}

// ---------------------------------------------------------------------------------------
// Pinning a checked target.

/// The parts of a parsed URL that the guard reads.
#[derive(Debug, Clone, PartialEq, Eq)]
pub struct UrlParts {
    /// Scheme, lower-case.
    pub scheme: String,
    /// User name, empty when there is none.
    pub username: String,
    /// Whether the URL carries a password.
    pub has_password: bool,
    /// Host text, if the URL has a host.
    pub host: Option<String>,
    /// Port given in the URL, if any.
    pub port: Option<u16>,
    /// Port given in the URL, or the scheme's known default.
    pub port_or_known_default: Option<u16>,
    /// Path.
    pub path: String,
    /// Query, without `?`.
    pub query: Option<String>,
}

/// Texts of an optional string.
pub open spec fn opt_text(s: Option<String>) -> Option<Seq<char>> {
    match s {
        Some(t) => Some(t@),
        None => None,
    }
}

/// The URL parts as plain values: scheme, user name, password present, host, port, port
/// or default, path, query.
pub open spec fn parts_view(p: UrlParts) -> (
    Seq<char>,
    Seq<char>,
    bool,
    Option<Seq<char>>,
    Option<u16>,
    Option<u16>,
    Seq<char>,
    Option<Seq<char>>,
) {
    (p.scheme@, p.username@, p.has_password, opt_text(p.host), p.port, p.port_or_known_default, p.path@, opt_text(p.query))
}

/// What the `url` crate's parser makes of `url`: scheme, user name, whether a password is
/// present, host, port, port or known default, path and query; `None` when it refuses the
/// text.
pub uninterp spec fn parsed_url(url: Seq<char>) -> Option<(
    Seq<char>,
    Seq<char>,
    bool,
    Option<Seq<char>>,
    Option<u16>,
    Option<u16>,
    Seq<char>,
    Option<Seq<char>>,
)>;

/// Calls `url::Url::parse` and reads `scheme`, `username`, `password`, `host_str`, `port`,
/// `port_or_known_default`, `path` and `query`. Claimed: the parts are the named parse of
/// the text, `None` on a parse error.
#[verifier::external_body]
pub(crate) fn parse_url_parts(url: &str) -> (r: Option<UrlParts>)
    ensures
        match r {
            Some(p) => parsed_url(url@) == Some(parts_view(p)),
            None => parsed_url(url@) is None,
        },
{
    match url::Url::parse(url) {
        Ok(u) => Some(UrlParts {
            scheme: u.scheme().to_string(),
            username: u.username().to_string(),
            has_password: u.password().is_some(),
            host: u.host_str().map(|h| h.to_string()),
            port: u.port(),
            port_or_known_default: u.port_or_known_default(),
            path: u.path().to_string(),
            query: u.query().map(|q| q.to_string()),
        }),
        Err(_) => None,
    }
}

/// Why the guard refused a target.
#[derive(Debug, Clone, PartialEq, Eq)]
pub enum SsrfError {
    /// The URL does not parse.
    InvalidUrl,
    /// The URL has no host.
    NoHost,
    /// Name resolution timed out.
    DnsTimeout(String),
    /// Name resolution failed.
    DnsFailure,
    /// Name resolution found no address.
    NoAddress,
    /// A resolved address is refused.
    Blocked {
        /// Host resolved.
        host: String,
        /// Address refused.
        ip: IpAddress,
    },
}

/// Parses a URL; refused when it does not parse or has no host.
pub fn url_target(url: &str) -> (r: Result<UrlParts, SsrfError>)
    ensures
        match parsed_url(url@) {
            None => r == Err::<UrlParts, SsrfError>(SsrfError::InvalidUrl),
            Some(v) => match v.3 {
                None => r == Err::<UrlParts, SsrfError>(SsrfError::NoHost),
                Some(_) => r matches Ok(p) && parts_view(p) == v,
            },
        },
{
    match parse_url_parts(url) {
        None => Err(SsrfError::InvalidUrl),
        Some(p) => match &p.host {
            None => Err(SsrfError::NoHost),
            Some(_) => Ok(p),
        },
    }
}

/// A checked target: the URL to request, the `Host` header value and the addresses.
#[derive(Debug, Clone, PartialEq, Eq)]
pub struct PinnedTarget {
    /// For HTTP, the URL with the host replaced by the checked address; for HTTPS, the
    /// original URL (the client pins the address instead).
    pub url: String,
    /// Original host, with the port only when the URL gave one.
    pub host_header: String,
    /// Resolved addresses with the port.
    pub addrs: Vec<(IpAddress, u16)>,
}

/// The port connected to: the URL's port or its scheme's default, else 80.
pub open spec fn target_port(p: UrlParts) -> u16 {
    match p.port_or_known_default {
        Some(port) => port,
        None => 80,
    }
}

/// The `Host` header value: the host, with `:port` only when the URL gave a port.
pub open spec fn host_header_text(p: UrlParts) -> Seq<char> {
    let host = match p.host {
        Some(h) => h@,
        None => Seq::empty(),
    };
    match p.port {
        Some(port) => host + seq![':'] + decimal(port as nat),
        None => host,
    }
}

/// The URL that an HTTP request goes to: scheme, the address, the port, path and query.
pub open spec fn pinned_http_url(p: UrlParts, ip: IpAddress) -> Seq<char> {
    let base = p.scheme@ + "://"@ + url_host_text(ip) + seq![':'] + decimal(target_port(p) as nat) + p.path@;
    match p.query {
        Some(q) => base + seq!['?'] + q@,
        None => base,
    }
}

/// Index of the first refused address, if any.
pub open spec fn first_blocked(addrs: Seq<IpAddress>, k: int) -> bool {
    0 <= k < addrs.len() && blocked(addrs[k]) && forall|j: int| 0 <= j < k ==> !blocked(#[trigger] addrs[j])
}

fn push_url_host(out: &mut Vec<char>, ip: &IpAddress)
    ensures
        final(out)@ == old(out)@ + url_host_text(*ip),
{
    match *ip {
        IpAddress::V4(a, b, c, d) => push_v4(out, a, b, c, d),
        IpAddress::V6(a, b, c, d, e, f, g, h) => {
            let gs: [u16; 8] = [a, b, c, d, e, f, g, h];
            assert(gs@ =~= groups(a, b, c, d, e, f, g, h));
            out.push('[');
            let t = ipv6_text(gs);
            push_str_chars(out, t.as_str());
            out.push(']');
            proof {
                assert(out@ =~= old(out)@ + url_host_text(*ip));
            }
        },
    }
}

/// Checks the resolved addresses of a target and pins it. No address, or any refused
/// address (the first one is reported), refuses the target.
pub fn pin_target(url: &str, parts: &UrlParts, resolved: &Vec<IpAddress>) -> (r: Result<PinnedTarget, SsrfError>)
    requires
        parts.host is Some,
    ensures
        resolved@.len() == 0 ==> r == Err::<PinnedTarget, SsrfError>(SsrfError::NoAddress),
        forall|k: int| #[trigger] first_blocked(resolved@, k) ==> (r matches Err(SsrfError::Blocked { host, ip })
            && Some(host@) == opt_text(parts.host) && ip == resolved@[k]),
        resolved@.len() > 0 && (forall|k: int| 0 <= k < resolved@.len() ==> !blocked(#[trigger] resolved@[k])) ==> (
        r matches Ok(t) && t.host_header@ == host_header_text(*parts) && t.addrs@ == resolved@.map_values(
            |ip: IpAddress| (ip, target_port(*parts)),
        ) && t.url@ == (if parts.scheme@ == "https"@ {
            url@
        } else {
            pinned_http_url(*parts, resolved@[0])
        })),
{
    if resolved.len() == 0 {
        return Err(SsrfError::NoAddress);
    }
    let host = match &parts.host {
        Some(h) => h.clone(),
        None => String::new(),
    };
    let mut k: usize = 0;
    while k < resolved.len()
        invariant
            k <= resolved@.len(),
            Some(host@) == opt_text(parts.host),
            forall|j: int| 0 <= j < k ==> !blocked(#[trigger] resolved@[j]),
        decreases resolved@.len() - k,
    {
        if is_blocked_ip(&resolved[k]) {
            proof {
                assert forall|k2: int| #[trigger] first_blocked(resolved@, k2) implies k2 == k by {
                    if k2 < k {
                        assert(!blocked(resolved@[k2]));
                    } else if k2 > k {
                        assert(!blocked(resolved@[k as int]));
                    }
                }
            }
            return Err(SsrfError::Blocked { host, ip: resolved[k] });
        }
        k = k + 1;
    }
    let port: u16 = match parts.port_or_known_default {
        Some(p) => p,
        None => 80,
    };
    let mut addrs: Vec<(IpAddress, u16)> = Vec::new();
    let mut a: usize = 0;
    while a < resolved.len()
        invariant
            a <= resolved@.len(),
            port == target_port(*parts),
            addrs@ == resolved@.subrange(0, a as int).map_values(|ip: IpAddress| (ip, port)),
        decreases resolved@.len() - a,
    {
        addrs.push((resolved[a], port));
        proof {
            assert(resolved@.subrange(0, a + 1).map_values(|ip: IpAddress| (ip, port)) =~= resolved@.subrange(0, a as int).map_values(
                |ip: IpAddress| (ip, port),
            ).push((resolved@[a as int], port)));
        }
        a = a + 1;
    }
    proof {
        assert(resolved@.subrange(0, resolved@.len() as int) =~= resolved@);
    }
    let mut header = host.clone();
    match parts.port {
        Some(explicit) => {
            proof {
                reveal_strlit(":");
            }
            header.append(":");
            let digits = u32_to_decimal(explicit as u32);
            header.append(digits.as_str());
        },
        None => {},
    }
    let is_https = crate::text::chars_eq(&crate::text::chars_of(parts.scheme.as_str()), &crate::text::chars_of("https"));
    let target_url = if is_https {
        to_owned_string(url)
    } else {
        let mut out: Vec<char> = Vec::new();
        push_str_chars(&mut out, parts.scheme.as_str());
        push_str_chars(&mut out, "://");
        push_url_host(&mut out, &resolved[0]);
        out.push(':');
        push_str_chars(&mut out, u32_to_decimal(port as u32).as_str());
        push_str_chars(&mut out, parts.path.as_str());
        match &parts.query {
            Some(q) => {
                out.push('?');
                push_str_chars(&mut out, q.as_str());
            },
            None => {},
        }
        proof {
            assert(out@ =~= pinned_http_url(*parts, resolved@[0]));
        }
        string_from_chars(&out)
    };
    Ok(PinnedTarget { url: target_url, host_header: header, addrs })
}

} // verus!
