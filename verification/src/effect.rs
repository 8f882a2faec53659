//! Effect contracts: the typed outputs of HTTP, QuickJS and extraction effects, their safe
//! failure categories, and the errors that effect handlers and archives report.

use vstd::prelude::*;

use crate::json::JsonValue;
use crate::model::{EffectKind, IntentInput};
use crate::policy::{check_capability, Capability, PolicyCapabilities};
use crate::text::to_owned_string;

verus! {

/// Safe failure category of a QuickJS effect; carries no engine text, script or input.
#[derive(Debug, Clone, Copy, PartialEq, Eq, Structural)]
pub enum QuickJsErrorKind {
    /// The script failed to evaluate.
    Evaluation,
    /// The QuickJS runtime could not be created.
    RuntimeInitialization,
    /// The QuickJS context could not be created.
    ContextInitialization,
    /// The watchdog reached the time limit.
    Timeout,
    /// The watchdog could not be cleaned up.
    Watchdog,
    /// The blocking worker ended unexpectedly.
    WorkerFailure,
}

/// Safe failure category of an HTTP effect.
#[derive(Debug, Clone, Copy, PartialEq, Eq, Structural)]
pub enum HttpEffectErrorKind {
    /// DNS or SSRF target validation failed.
    TargetValidation,
    /// Building or sending the request failed.
    Request,
    /// Too many redirects, or one without a safe `Location`.
    Redirect,
    /// Reading the response body failed or it was too large.
    ResponseRead,
}

/// An effect failure that happened and can be archived and replayed safely.
#[derive(Debug, Clone, Copy, PartialEq, Eq, Structural)]
pub enum EffectFailure {
    /// HTTP effect failure.
    Http {
        /// Stable category.
        error: HttpEffectErrorKind,
    },
    /// QuickJS effect failure.
    QuickJs {
        /// Stable category.
        error: QuickJsErrorKind,
    },
    /// Extraction failure.
    Extract,
}

/// The effect kind a failure belongs to.
pub open spec fn failure_kind(f: EffectFailure) -> EffectKind {
    match f {
        EffectFailure::Http { .. } => EffectKind::Http,
        EffectFailure::QuickJs { .. } => EffectKind::QuickJs,
        EffectFailure::Extract => EffectKind::Extract,
    }
}

impl EffectFailure {
    /// The effect kind this failure belongs to.
    pub fn kind(&self) -> (k: EffectKind)
        ensures
            k == failure_kind(*self),
    {
        match self {
            EffectFailure::Http { .. } => EffectKind::Http,
            EffectFailure::QuickJs { .. } => EffectKind::QuickJs,
            EffectFailure::Extract => EffectKind::Extract,
        }
    }
}

/// An HTTP response as the runtime passes it on. Headers are `(name, value)` pairs.
#[derive(Debug, Clone, PartialEq, Eq)]
pub struct HttpResponse {
    /// Status code.
    pub status: u16,
    /// Response headers.
    pub headers: Vec<(String, String)>,
    /// Body bytes.
    pub body: Vec<u8>,
    /// Charset, such as `utf-8` or `gbk`.
    pub charset: Option<String>,
}

/// Typed result of a QuickJS effect.
#[derive(Debug, PartialEq, Eq)]
pub enum QuickJsOutput {
    /// The script returned JSON; its text.
    Json(String),
    /// The script returned text that is not JSON.
    Raw(String),
    /// The script ran and failed in an archivable way.
    Error(QuickJsErrorKind),
}

/// Typed result of an extraction effect.
#[derive(Debug, PartialEq, Eq)]
pub struct ExtractOutput {
    /// Extracted intermediate records.
    pub records: Vec<JsonValue>,
}

/// Typed output of an effect.
#[derive(Debug, PartialEq, Eq)]
pub enum EffectOutput {
    /// HTTP result.
    Http(HttpResponse),
    /// QuickJS result.
    QuickJs(QuickJsOutput),
    /// Extraction result.
    Extract(ExtractOutput),
    /// A failure that still has to be captured durably.
    Failure(EffectFailure),
}

/// The effect kind an output belongs to.
pub open spec fn output_kind(o: EffectOutput) -> EffectKind {
    match o {
        EffectOutput::Http(_) => EffectKind::Http,
        EffectOutput::QuickJs(_) => EffectKind::QuickJs,
        EffectOutput::Extract(_) => EffectKind::Extract,
        EffectOutput::Failure(f) => failure_kind(f),
    }
}

impl EffectOutput {
    /// The effect kind this output belongs to.
    pub fn kind(&self) -> (k: EffectKind)
        ensures
            k == output_kind(*self),
    {
        match self {
            EffectOutput::Http(_) => EffectKind::Http,
            EffectOutput::QuickJs(_) => EffectKind::QuickJs,
            EffectOutput::Extract(_) => EffectKind::Extract,
            EffectOutput::Failure(f) => f.kind(),
        }
    }
}

/// Upstream input of an effect: the plan entry's standard input, or the confirmed output
/// of the effect upstream.
#[derive(Debug, PartialEq, Eq)]
pub enum EffectInput {
    /// Standard intent input.
    Intent(IntentInput),
    /// Confirmed upstream output.
    Output(EffectOutput),
}

impl EffectInput {
    /// The standard intent input of an entry effect; `None` for any other effect.
    pub fn intent(&self) -> (r: Option<&IntentInput>)
        ensures
            match *self {
                EffectInput::Intent(i) => r == Some(&i),
                EffectInput::Output(_) => r is None,
            },
    {
        match self {
            EffectInput::Intent(input) => Some(input),
            EffectInput::Output(_) => None,
        }
    }

    /// The upstream output of a non-entry effect; `None` for an entry effect.
    pub fn output(&self) -> (r: Option<&EffectOutput>)
        ensures
            match *self {
                EffectInput::Intent(_) => r is None,
                EffectInput::Output(o) => r == Some(&o),
            },
    {
        match self {
            EffectInput::Intent(_) => None,
            EffectInput::Output(output) => Some(output),
        }
    }
}

/// Safe error category returned by effect handlers.
#[derive(Debug, Clone, Copy, PartialEq, Eq, Structural)]
pub enum EffectErrorCode {
    /// The effect was cancelled.
    Cancelled,
    /// The capability grant refused the effect.
    CapabilityDenied,
    /// The HTTP request or response read failed.
    HttpRequest,
    /// QuickJS creation, execution or watchdog failed.
    QuickJs,
    /// The extraction rule could not process its input.
    Extract,
    /// The upstream type does not fit the effect's input contract.
    InputType,
    /// The adapter failed internally.
    Internal,
}

/// Safe error returned by an effect handler.
#[derive(Debug, Clone, PartialEq, Eq)]
pub struct EffectError {
    /// Stable category.
    pub code: EffectErrorCode,
    /// Short message that is safe to show.
    pub message: String,
}

impl EffectError {
    /// Builds a handler error from a category and a safe message.
    pub fn new(code: EffectErrorCode, message: String) -> (e: EffectError)
        ensures
            e.code == code,
            e.message@ == message@,
    {
        EffectError { code, message }
    }

    /// The message, as the error's display text.
    pub fn to_string(&self) -> (s: String)
        ensures
            s@ == self.message@,
    {
        self.message.clone()
    }
}

/// Safe error of the effect archive.
#[derive(Debug, Clone, PartialEq, Eq)]
pub struct EffectArchiveError {
    /// Short message that is safe to show.
    pub message: String,
}

impl EffectArchiveError {
    /// Builds an archive error from a safe message.
    pub fn new(message: String) -> (e: EffectArchiveError)
        ensures
            e.message@ == message@,
    {
        EffectArchiveError { message }
    }

    /// The message, as the error's display text.
    pub fn to_string(&self) -> (s: String)
        ensures
            s@ == self.message@,
    {
        self.message.clone()
    }
}

/// The message of an effect refused because cancellation was observed before it ran.
pub open spec fn cancelled_message(kind: EffectKind) -> Seq<char> {
    match kind {
        EffectKind::Http => "HTTP effect 已取消"@,
        EffectKind::QuickJs => "QuickJS effect 已取消"@,
        EffectKind::Extract => "Extract effect 已取消"@,
    }
}

/// Whether an effect of this kind reaches the network.
pub open spec fn needs_network(kind: EffectKind) -> bool {
    kind == EffectKind::Http || kind == EffectKind::QuickJs
}

/// The checks an effect adapter makes before any work, in order: an effect whose
/// cancellation was already observed is refused as cancelled; then a network effect whose
/// grant does not allow the network is refused as denied.
pub fn effect_preflight(kind: EffectKind, cancelled: bool, capabilities: &PolicyCapabilities) -> (r: Result<
    (),
    EffectError,
>)
    ensures
        cancelled ==> (r matches Err(e) && e.code == EffectErrorCode::Cancelled && e.message@ == cancelled_message(
            kind,
        )),
        !cancelled && needs_network(kind) && !capabilities.network ==> (r matches Err(e) && e.code
            == EffectErrorCode::CapabilityDenied && e.message@ == "安装 grant 未允许 network capability"@),
        !cancelled && !(needs_network(kind) && !capabilities.network) ==> r is Ok,
{
    if cancelled {
        let message = match kind {
            EffectKind::Http => "HTTP effect 已取消",
            EffectKind::QuickJs => "QuickJS effect 已取消",
            EffectKind::Extract => "Extract effect 已取消",
        };
        return Err(EffectError::new(EffectErrorCode::Cancelled, to_owned_string(message)));
    }
    match kind {
        EffectKind::Http | EffectKind::QuickJs => match check_capability(capabilities, Capability::Network) {
            Ok(()) => Ok(()),
            Err(_) => Err(
                EffectError::new(
                    EffectErrorCode::CapabilityDenied,
                    to_owned_string("安装 grant 未允许 network capability"),
                ),
            ),
        },
        EffectKind::Extract => Ok(()),
    }
}

} // verus!
