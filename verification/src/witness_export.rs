//! The redacted witness view that tests of the rule system read back from the archive:
//! the same safe fields as the runtime witness, in types of the rule system's own.

use vstd::prelude::*;

use crate::effect::{HttpEffectErrorKind, QuickJsErrorKind};
use crate::model::HttpMethod;
use crate::witness::{
    EffectWitness, HttpDnsTargetKind, HttpDnsTargetWitness, HttpEffectWitness, HttpRedirectWitness,
    HttpRequestHeaderWitness, QuickJsEffectWitness, QuickJsHostCall, QuickJsHostCallWitness,
};

verus! {

/// An archived witness with its canonical hash.
#[derive(Debug, Clone, PartialEq, Eq)]
pub struct EffectWitnessCaptureForTest {
    /// Canonical BLAKE3 hash of the witness.
    pub witness_hash: String,
    /// The redacted witness.
    pub witness: EffectWitnessForTest,
}

/// Redacted witness, by effect kind.
#[derive(Debug, Clone, PartialEq, Eq)]
pub enum EffectWitnessForTest {
    /// HTTP evidence.
    Http(HttpEffectWitnessForTest),
    /// QuickJS evidence.
    QuickJs(QuickJsEffectWitnessForTest),
    /// Extraction evidence.
    Extract(ExtractEffectWitnessForTest),
}

/// Redacted HTTP witness.
#[derive(Debug, Clone, PartialEq, Eq)]
pub struct HttpEffectWitnessForTest {
    /// Initial request.
    pub request: HttpRequestWitnessForTest,
    /// Redirect hops followed.
    pub redirects: Vec<HttpRedirectWitnessForTest>,
    /// Target addresses.
    pub dns_targets: Vec<HttpDnsTargetWitnessForTest>,
    /// Failure category; `None` on success.
    pub error: Option<HttpEffectErrorKindForTest>,
    /// Duration in milliseconds.
    pub duration_ms: u64,
}

/// Redacted HTTP request.
#[derive(Debug, Clone, PartialEq, Eq)]
pub struct HttpRequestWitnessForTest {
    /// Request method.
    pub method: HttpMethodForTest,
    /// URL with scheme, host, port and path only.
    pub safe_url: String,
    /// Non-sensitive header names and value hashes.
    pub headers: Vec<HttpRequestHeaderWitnessForTest>,
    /// Body hash and length.
    pub body: Option<HttpRequestBodyWitnessForTest>,
}

/// Digest of a non-sensitive request header.
#[derive(Debug, Clone, PartialEq, Eq)]
pub struct HttpRequestHeaderWitnessForTest {
    /// Lower-case header name.
    pub name: String,
    /// BLAKE3 hash of the value.
    pub value_hash: String,
}

/// Digest of a request body.
#[derive(Debug, Clone, PartialEq, Eq)]
pub struct HttpRequestBodyWitnessForTest {
    /// BLAKE3 hash of the body.
    pub hash: String,
    /// Body length in bytes.
    pub byte_len: u64,
}

/// Redacted redirect hop.
#[derive(Debug, Clone, PartialEq, Eq)]
pub struct HttpRedirectWitnessForTest {
    /// Redirect status.
    pub status: u16,
    /// Safe source URL.
    pub from_url: String,
    /// Safe target URL.
    pub to_url: String,
}

/// Redacted target addresses.
#[derive(Debug, Clone, PartialEq, Eq)]
pub struct HttpDnsTargetWitnessForTest {
    /// Host requested.
    pub host: String,
    /// Resolved or literal addresses.
    pub addresses: Vec<String>,
    /// How the addresses were obtained.
    pub kind: HttpDnsTargetKindForTest,
}

/// HTTP method.
#[derive(Debug, Clone, Copy, PartialEq, Eq, Structural)]
pub enum HttpMethodForTest {
    /// GET.
    Get,
    /// POST.
    Post,
}

/// HTTP failure category.
#[derive(Debug, Clone, Copy, PartialEq, Eq, Structural)]
pub enum HttpEffectErrorKindForTest {
    /// DNS or SSRF target validation failed.
    TargetValidation,
    /// Building or sending the request failed.
    Request,
    /// A redirect failed.
    Redirect,
    /// Reading the response body failed.
    ResponseRead,
}

/// How target addresses were obtained.
#[derive(Debug, Clone, Copy, PartialEq, Eq, Structural)]
pub enum HttpDnsTargetKindForTest {
    /// Pinned by the SSRF guard.
    PinnedDns,
    /// An IP literal.
    IpLiteral,
    /// Only the host was observed.
    DirectHost,
}

/// Redacted QuickJS witness.
#[derive(Debug, Clone, PartialEq, Eq)]
pub struct QuickJsEffectWitnessForTest {
    /// Script hash.
    pub script_hash: String,
    /// Input hash.
    pub input_hash: String,
    /// Output hash.
    pub output_hash: String,
    /// Failure category.
    pub error: Option<QuickJsErrorKindForTest>,
    /// Host calls in order.
    pub host_calls: Vec<QuickJsHostCallWitnessForTest>,
    /// Duration in milliseconds.
    pub duration_ms: u64,
}

/// One host call.
#[derive(Debug, Clone, Copy, PartialEq, Eq, Structural)]
pub struct QuickJsHostCallWitnessForTest {
    /// Sequence number, from one.
    pub sequence: u32,
    /// The call and its safe result.
    pub call: QuickJsHostCallForTest,
}

/// A host call and its safe result.
#[derive(Debug, Clone, Copy, PartialEq, Eq, Structural)]
pub enum QuickJsHostCallForTest {
    /// `Date.now()` epoch milliseconds.
    Time {
        /// Epoch milliseconds.
        epoch_millis: i64,
    },
    /// `Math.random()` bits.
    Random {
        /// IEEE-754 bits.
        value_bits: u64,
    },
}

/// QuickJS failure category.
#[derive(Debug, Clone, Copy, PartialEq, Eq, Structural)]
pub enum QuickJsErrorKindForTest {
    /// Evaluation failed.
    Evaluation,
    /// Runtime creation failed.
    RuntimeInitialization,
    /// Context creation failed.
    ContextInitialization,
    /// Watchdog timeout.
    Timeout,
    /// Watchdog cleanup failed.
    Watchdog,
    /// The worker ended unexpectedly.
    WorkerFailure,
}

/// Redacted extraction witness.
#[derive(Debug, Clone, PartialEq, Eq)]
pub struct ExtractEffectWitnessForTest {
    /// Input hash.
    pub input_hash: String,
    /// Duration in milliseconds.
    pub duration_ms: u64,
}

/// The export of an HTTP method.
pub open spec fn method_export(m: HttpMethod) -> HttpMethodForTest {
    match m {
        HttpMethod::Get => HttpMethodForTest::Get,
        HttpMethod::Post => HttpMethodForTest::Post,
    }
}

/// The export of an HTTP failure category.
pub open spec fn http_error_export(e: HttpEffectErrorKind) -> HttpEffectErrorKindForTest {
    match e {
        HttpEffectErrorKind::TargetValidation => HttpEffectErrorKindForTest::TargetValidation,
        HttpEffectErrorKind::Request => HttpEffectErrorKindForTest::Request,
        HttpEffectErrorKind::Redirect => HttpEffectErrorKindForTest::Redirect,
        HttpEffectErrorKind::ResponseRead => HttpEffectErrorKindForTest::ResponseRead,
    }
}

/// The export of a target-address kind.
pub open spec fn dns_kind_export(k: HttpDnsTargetKind) -> HttpDnsTargetKindForTest {
    match k {
        HttpDnsTargetKind::PinnedDns => HttpDnsTargetKindForTest::PinnedDns,
        HttpDnsTargetKind::IpLiteral => HttpDnsTargetKindForTest::IpLiteral,
        HttpDnsTargetKind::DirectHost => HttpDnsTargetKindForTest::DirectHost,
    }
}

/// The export of a QuickJS failure category.
pub open spec fn quickjs_error_export(e: QuickJsErrorKind) -> QuickJsErrorKindForTest {
    match e {
        QuickJsErrorKind::Evaluation => QuickJsErrorKindForTest::Evaluation,
        QuickJsErrorKind::RuntimeInitialization => QuickJsErrorKindForTest::RuntimeInitialization,
        QuickJsErrorKind::ContextInitialization => QuickJsErrorKindForTest::ContextInitialization,
        QuickJsErrorKind::Timeout => QuickJsErrorKindForTest::Timeout,
        QuickJsErrorKind::Watchdog => QuickJsErrorKindForTest::Watchdog,
        QuickJsErrorKind::WorkerFailure => QuickJsErrorKindForTest::WorkerFailure,
    }
}

/// The export of a host call.
pub open spec fn host_call_export(c: QuickJsHostCallWitness) -> QuickJsHostCallWitnessForTest {
    QuickJsHostCallWitnessForTest {
        sequence: c.sequence,
        call: match c.call {
            QuickJsHostCall::Time { epoch_millis } => QuickJsHostCallForTest::Time { epoch_millis },
            QuickJsHostCall::Random { value_bits } => QuickJsHostCallForTest::Random { value_bits },
        },
    }
}

/// `t` carries the same header digest as `h`.
pub open spec fn header_mirrors(h: HttpRequestHeaderWitness, t: HttpRequestHeaderWitnessForTest) -> bool {
    t.name@ == h.name@ && t.value_hash@ == h.value_hash@
}

/// `t` carries the same redirect hop as `r`.
pub open spec fn redirect_mirrors(r: HttpRedirectWitness, t: HttpRedirectWitnessForTest) -> bool {
    t.status == r.status && t.from_url@ == r.from_url@ && t.to_url@ == r.to_url@
}

/// `t` carries the same target as `d`.
pub open spec fn target_mirrors(d: HttpDnsTargetWitness, t: HttpDnsTargetWitnessForTest) -> bool {
    &&& t.host@ == d.host@
    &&& t.addresses@.len() == d.addresses@.len()
    &&& forall|i: int| 0 <= i < t.addresses@.len() ==> (#[trigger] t.addresses@[i])@ == d.addresses@[i]@
    &&& t.kind == dns_kind_export(d.kind)
}

/// `t` carries the same HTTP evidence as `w`.
pub open spec fn http_mirrors(w: HttpEffectWitness, t: HttpEffectWitnessForTest) -> bool {
    &&& t.request.method == method_export(w.request.method)
    &&& t.request.safe_url@ == w.request.safe_url@
    &&& t.request.headers@.len() == w.request.headers@.len()
    &&& forall|i: int| 0 <= i < t.request.headers@.len() ==> header_mirrors(w.request.headers@[i], #[trigger] t.request.headers@[i])
    &&& match (w.request.body, t.request.body) {
        (Some(b), Some(tb)) => tb.hash@ == b.hash@ && tb.byte_len == b.byte_len,
        (None, None) => true,
        _ => false,
    }
    &&& t.redirects@.len() == w.redirects@.len()
    &&& forall|i: int| 0 <= i < t.redirects@.len() ==> redirect_mirrors(w.redirects@[i], #[trigger] t.redirects@[i])
    &&& t.dns_targets@.len() == w.dns_targets@.len()
    &&& forall|i: int| 0 <= i < t.dns_targets@.len() ==> target_mirrors(w.dns_targets@[i], #[trigger] t.dns_targets@[i])
    &&& t.error == (match w.error {
        Some(e) => Some(http_error_export(e)),
        None => None,
    })
    &&& t.duration_ms == w.duration_ms
}

/// `t` carries the same QuickJS evidence as `w`.
pub open spec fn quickjs_mirrors(w: QuickJsEffectWitness, t: QuickJsEffectWitnessForTest) -> bool {
    &&& t.script_hash@ == w.script_hash@
    &&& t.input_hash@ == w.input_hash@
    &&& t.output_hash@ == w.output_hash@
    &&& t.error == (match w.error {
        Some(e) => Some(quickjs_error_export(e)),
        None => None,
    })
    &&& t.host_calls@ == w.host_calls@.map_values(|c: QuickJsHostCallWitness| host_call_export(c))
    &&& t.duration_ms == w.duration_ms
}

/// `t` carries exactly the evidence of `w`.
pub open spec fn witness_mirrors(w: EffectWitness, t: EffectWitnessForTest) -> bool {
    match (w, t) {
        (EffectWitness::Http(h), EffectWitnessForTest::Http(th)) => http_mirrors(h, th),
        (EffectWitness::QuickJs(q), EffectWitnessForTest::QuickJs(tq)) => quickjs_mirrors(q, tq),
        (EffectWitness::Extract(e), EffectWitnessForTest::Extract(te)) => te.input_hash@ == e.input_hash@
            && te.duration_ms == e.duration_ms,
        _ => false,
    }
}

fn export_target(d: &HttpDnsTargetWitness) -> (t: HttpDnsTargetWitnessForTest)
    ensures
        target_mirrors(*d, t),
{
    let mut addresses: Vec<String> = Vec::new();
    let mut i: usize = 0;
    while i < d.addresses.len()
        invariant
            i <= d.addresses@.len(),
            addresses@.len() == i,
            forall|j: int| 0 <= j < i ==> (#[trigger] addresses@[j])@ == d.addresses@[j]@,
        decreases d.addresses@.len() - i,
    {
        addresses.push(d.addresses[i].clone());
        i = i + 1;
    }
    HttpDnsTargetWitnessForTest {
        host: d.host.clone(),
        addresses,
        kind: match d.kind {
            HttpDnsTargetKind::PinnedDns => HttpDnsTargetKindForTest::PinnedDns,
            HttpDnsTargetKind::IpLiteral => HttpDnsTargetKindForTest::IpLiteral,
            HttpDnsTargetKind::DirectHost => HttpDnsTargetKindForTest::DirectHost,
        },
    }
}

fn export_http(w: &HttpEffectWitness) -> (t: HttpEffectWitnessForTest)
    ensures
        http_mirrors(*w, t),
{
    let mut headers: Vec<HttpRequestHeaderWitnessForTest> = Vec::new();
    let mut i: usize = 0;
    while i < w.request.headers.len()
        invariant
            i <= w.request.headers@.len(),
            headers@.len() == i,
            forall|j: int| 0 <= j < i ==> header_mirrors(w.request.headers@[j], #[trigger] headers@[j]),
        decreases w.request.headers@.len() - i,
    {
        let h = &w.request.headers[i];
        headers.push(HttpRequestHeaderWitnessForTest { name: h.name.clone(), value_hash: h.value_hash.clone() });
        i = i + 1;
    }
    let mut redirects: Vec<HttpRedirectWitnessForTest> = Vec::new();
    let mut r: usize = 0;
    while r < w.redirects.len()
        invariant
            r <= w.redirects@.len(),
            redirects@.len() == r,
            forall|j: int| 0 <= j < r ==> redirect_mirrors(w.redirects@[j], #[trigger] redirects@[j]),
        decreases w.redirects@.len() - r,
    {
        let hop = &w.redirects[r];
        redirects.push(HttpRedirectWitnessForTest {
            status: hop.status,
            from_url: hop.from_url.clone(),
            to_url: hop.to_url.clone(),
        });
        r = r + 1;
    }
    let mut dns_targets: Vec<HttpDnsTargetWitnessForTest> = Vec::new();
    let mut d: usize = 0;
    while d < w.dns_targets.len()
        invariant
            d <= w.dns_targets@.len(),
            dns_targets@.len() == d,
            forall|j: int| 0 <= j < d ==> target_mirrors(w.dns_targets@[j], #[trigger] dns_targets@[j]),
        decreases w.dns_targets@.len() - d,
    {
        dns_targets.push(export_target(&w.dns_targets[d]));
        d = d + 1;
    }
    let body = match &w.request.body {
        Some(b) => Some(HttpRequestBodyWitnessForTest { hash: b.hash.clone(), byte_len: b.byte_len }),
        None => None,
    };
    let error = match w.error {
        Some(HttpEffectErrorKind::TargetValidation) => Some(HttpEffectErrorKindForTest::TargetValidation),
        Some(HttpEffectErrorKind::Request) => Some(HttpEffectErrorKindForTest::Request),
        Some(HttpEffectErrorKind::Redirect) => Some(HttpEffectErrorKindForTest::Redirect),
        Some(HttpEffectErrorKind::ResponseRead) => Some(HttpEffectErrorKindForTest::ResponseRead),
        None => None,
    };
    HttpEffectWitnessForTest {
        request: HttpRequestWitnessForTest {
            method: match w.request.method {
                HttpMethod::Get => HttpMethodForTest::Get,
                HttpMethod::Post => HttpMethodForTest::Post,
            },
            safe_url: w.request.safe_url.clone(),
            headers,
            body,
        },
        redirects,
        dns_targets,
        error,
        duration_ms: w.duration_ms,
    }
}

fn export_quickjs(w: &QuickJsEffectWitness) -> (t: QuickJsEffectWitnessForTest)
    ensures
        quickjs_mirrors(*w, t),
{
    let mut calls: Vec<QuickJsHostCallWitnessForTest> = Vec::new();
    let mut i: usize = 0;
    while i < w.host_calls.len()
        invariant
            i <= w.host_calls@.len(),
            calls@ == w.host_calls@.subrange(0, i as int).map_values(|c: QuickJsHostCallWitness| host_call_export(c)),
        decreases w.host_calls@.len() - i,
    {
        let c = w.host_calls[i];
        let call = match c.call {
            QuickJsHostCall::Time { epoch_millis } => QuickJsHostCallForTest::Time { epoch_millis },
            QuickJsHostCall::Random { value_bits } => QuickJsHostCallForTest::Random { value_bits },
        };
        calls.push(QuickJsHostCallWitnessForTest { sequence: c.sequence, call });
        proof {
            assert(w.host_calls@.subrange(0, i + 1).map_values(|c: QuickJsHostCallWitness| host_call_export(c))
                =~= w.host_calls@.subrange(0, i as int).map_values(|c: QuickJsHostCallWitness| host_call_export(c)).push(
                host_call_export(w.host_calls@[i as int])));
        }
        i = i + 1;
    }
    proof {
        assert(w.host_calls@.subrange(0, w.host_calls@.len() as int) =~= w.host_calls@);
    }
    let error = match w.error {
        Some(QuickJsErrorKind::Evaluation) => Some(QuickJsErrorKindForTest::Evaluation),
        Some(QuickJsErrorKind::RuntimeInitialization) => Some(QuickJsErrorKindForTest::RuntimeInitialization),
        Some(QuickJsErrorKind::ContextInitialization) => Some(QuickJsErrorKindForTest::ContextInitialization),
        Some(QuickJsErrorKind::Timeout) => Some(QuickJsErrorKindForTest::Timeout),
        Some(QuickJsErrorKind::Watchdog) => Some(QuickJsErrorKindForTest::Watchdog),
        Some(QuickJsErrorKind::WorkerFailure) => Some(QuickJsErrorKindForTest::WorkerFailure),
        None => None,
    };
    QuickJsEffectWitnessForTest {
        script_hash: w.script_hash.clone(),
        input_hash: w.input_hash.clone(),
        output_hash: w.output_hash.clone(),
        error,
        host_calls: calls,
        duration_ms: w.duration_ms,
    }
}

/// The redacted export of an archived witness.
pub fn effect_witness_for_test(witness: &EffectWitness) -> (t: EffectWitnessForTest)
    ensures
        witness_mirrors(*witness, t),
{
    match witness {
        EffectWitness::Http(w) => EffectWitnessForTest::Http(export_http(w)),
        EffectWitness::QuickJs(w) => EffectWitnessForTest::QuickJs(export_quickjs(w)),
        EffectWitness::Extract(w) => EffectWitnessForTest::Extract(ExtractEffectWitnessForTest {
            input_hash: w.input_hash.clone(),
            duration_ms: w.duration_ms,
        }),
    }
}

/// An archived witness with its hash, exported.
pub fn effect_witness_capture_for_test(witness_hash: String, witness: &EffectWitness) -> (c: EffectWitnessCaptureForTest)
    ensures
        c.witness_hash@ == witness_hash@,
        witness_mirrors(*witness, c.witness),
{
    EffectWitnessCaptureForTest { witness_hash, witness: effect_witness_for_test(witness) }
}

} // verus!
