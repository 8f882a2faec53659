//! The rule model: source definitions, diagnostics, endpoints, events and the compiled
//! execution plan that the runtime schedules.

use vstd::prelude::*;

use crate::graph_reach::Uid;
use crate::json::JsonValue;
use crate::policy::PolicyCapabilities;

verus! {

/// Stable identity of a rule source.
#[derive(Debug, Clone, PartialEq, Eq)]
pub struct SourceIdentity {
    /// Source identifier.
    pub id: String,
}

/// A span in the rule source text.
#[derive(Debug, Clone, PartialEq, Eq)]
pub struct SourceSpan {
    /// Byte offset where the span starts.
    pub start: usize,
    /// Byte offset where the span ends.
    pub end: usize,
    /// Path of the file the span lies in, when known.
    pub path: Option<String>,
}

/// What a source declares it needs.
#[derive(Debug, Clone, Copy, PartialEq, Eq, Default, Structural)]
pub struct CapabilityManifest {
    /// Capabilities the source requires.
    pub required: PolicyCapabilities,
}

/// The kind of records a mapper produces.
#[derive(Debug, Clone, Copy, PartialEq, Eq, Structural)]
pub enum MapperOutputKind {
    /// Library items.
    Items,
    /// Discovery entries.
    Discovery,
    /// Readable units.
    Units,
    /// Media assets.
    Assets,
}

/// A mapper whose output kind and identity fields are fixed by the rule.
#[derive(Debug, Clone, PartialEq, Eq)]
pub struct ControlledMapper {
    /// Output kind.
    pub output: MapperOutputKind,
    /// Fields that identify a record.
    pub identity_fields: Vec<String>,
}

/// Kind of a node in an authored flow graph.
#[derive(Debug, Clone, Copy, PartialEq, Eq, Structural)]
pub enum FlowNodeKind {
    /// HTTP request.
    Http,
    /// Script.
    Js,
    /// Content extraction.
    Extract,
    /// Record mapping.
    Mapper,
    /// Merge of branches.
    Merge,
    /// Conditional branch.
    Condition,
    /// Loop.
    Loop,
}

/// Severity of a compiler diagnostic.
#[derive(Debug, Clone, Copy, PartialEq, Eq, Structural)]
pub enum DiagnosticSeverity {
    /// Informational.
    Info,
    /// Warning.
    Warning,
    /// Error.
    Error,
}

/// A compiler diagnostic.
#[derive(Debug, Clone, PartialEq, Eq)]
pub struct Diagnostic {
    /// Stable diagnostic code.
    pub code: String,
    /// Severity.
    pub severity: DiagnosticSeverity,
    /// Message for the author.
    pub message: String,
    /// Where in the source it applies.
    pub span: Option<SourceSpan>,
}

/// HTTP request method.
#[derive(Debug, Clone, Copy, PartialEq, Eq, Structural)]
pub enum HttpMethod {
    /// `GET`.
    Get,
    /// `POST`.
    Post,
}

/// The data type an HTTP endpoint is expected to return.
#[derive(Debug, Clone, Copy, PartialEq, Eq, Structural)]
pub enum ExpectedDataType {
    /// An HTML document.
    Html,
}

/// No header name occurs twice, as in a map from names to values.
pub open spec fn distinct_header_names(headers: Seq<(String, String)>) -> bool {
    forall|i: int, j: int| 0 <= i < j < headers.len() ==> (#[trigger] headers[i]).0@ != (#[trigger] headers[j]).0@
}

/// A compiled HTTP endpoint. Headers are kept as `(name, value)` pairs that stand for a map
/// from names to values: no name occurs twice ([`distinct_header_names`]).
#[derive(Debug, Clone, PartialEq, Eq)]
pub struct HttpSpec {
    /// Request method.
    pub method: HttpMethod,
    /// URL template.
    pub url: String,
    /// Request headers.
    pub headers: Vec<(String, String)>,
    /// Request body template.
    pub body: Option<String>,
    /// Response charset override.
    pub charset: Option<String>,
    /// Expected response type.
    pub expected_type: ExpectedDataType,
}

/// Type of a stored event.
#[derive(Debug, Clone, PartialEq, Eq)]
pub enum EventType {
    /// Candidate lifecycle event.
    Candidate,
    /// Source lifecycle event.
    Source,
    /// Execution event.
    Execution,
    /// Library event.
    Library,
    /// Any other named event type.
    Other(String),
}

/// Reference to a stored artifact.
#[derive(Debug, Clone, PartialEq, Eq)]
pub struct ArtifactRef {
    /// Content hash.
    pub hash: String,
    /// Codec of the stored bytes.
    pub codec: String,
}

/// Reference to a stored secret.
#[derive(Debug, Clone, PartialEq, Eq)]
pub struct SecretRef {
    /// Content hash.
    pub hash: String,
    /// Encryption algorithm.
    pub algorithm: String,
}

/// A stored event with its envelope fields.
#[derive(Debug, PartialEq, Eq)]
pub struct EventEnvelope {
    /// Global sequence over all streams.
    pub global_seq: u64,
    /// Stream the event belongs to.
    pub stream_id: String,
    /// Version of the event within its stream.
    pub stream_version: u64,
    /// Event identifier.
    pub event_id: Uid,
    /// Event type.
    pub event_type: EventType,
    /// Payload schema version.
    pub schema_version: u32,
    /// Correlated event.
    pub correlation_id: Option<Uid>,
    /// Causing event.
    pub causation_id: Option<Uid>,
    /// Trace.
    pub trace_id: String,
    /// When it happened, as stored text.
    pub occurred_at: String,
    /// Payload.
    pub payload: JsonValue,
    /// Artifacts referenced.
    pub artifact_refs: Vec<ArtifactRef>,
    /// Secrets referenced.
    pub secret_refs: Vec<SecretRef>,
}

/// Kind of a node in a compiled plan.
#[derive(Debug, Clone, Copy, PartialEq, Eq, Structural)]
pub enum PlanNodeKind {
    /// HTTP request.
    Http,
    /// Script.
    Js,
    /// Content extraction.
    Extract,
    /// Record mapping.
    Mapper,
    /// Merge of branches.
    Merge,
    /// Conditional branch.
    Condition,
    /// Loop.
    Loop,
}

/// A typed port of a plan node.
#[derive(Debug, Clone, PartialEq, Eq)]
pub struct PlanPort {
    /// Port name.
    pub name: String,
    /// Type tag of the data carried.
    pub type_tag: String,
}

/// Kind of an external effect.
#[derive(Debug, Clone, Copy, PartialEq, Eq, Structural)]
pub enum EffectKind {
    /// HTTP request.
    Http,
    /// QuickJS script run.
    QuickJs,
    /// Content extraction.
    Extract,
}

/// Declaration that a plan node performs an effect.
#[derive(Debug, Clone, PartialEq, Eq)]
pub struct EffectDeclaration {
    /// Node performing the effect.
    pub node_id: Uid,
    /// Effect kind.
    pub kind: EffectKind,
    /// Capabilities the effect needs.
    pub required_capabilities: Vec<String>,
}

/// The standard intents a source can export.
#[derive(Debug, Clone, Copy, PartialEq, Eq, Structural)]
pub enum StandardIntent {
    /// Search the source.
    Search,
    /// Resolve one item.
    ResolveItem,
    /// Continue a paged action.
    ContinueAction,
}

/// Standard input of an intent. Opaque input is kept as its compact JSON text.
#[derive(Debug, Clone, PartialEq, Eq)]
pub enum IntentInput {
    /// Search query.
    Query(String),
    /// Item identifier.
    ItemId(String),
    /// Unit identifier.
    UnitId(String),
    /// Action identifier.
    ActionId(String),
    /// Page, as text.
    Page(String),
    /// Opaque JSON, as compact text.
    Opaque(String),
    /// No input.
    NoInput,
}

/// Entry and mapper nodes of one intent.
#[derive(Debug, Clone, Copy, PartialEq, Eq, Structural)]
pub struct IntentEntry {
    /// The intent.
    pub intent: StandardIntent,
    /// Node where the intent's input enters.
    pub entry_node: Uid,
    /// Mapper node producing the intent's output.
    pub mapper_output: Uid,
}

/// A node of a compiled plan.
#[derive(Debug, PartialEq, Eq)]
pub struct PlanNode {
    /// Node identifier.
    pub id: Uid,
    /// Node kind.
    pub kind: PlanNodeKind,
    /// Input ports.
    pub inputs: Vec<PlanPort>,
    /// Output ports.
    pub outputs: Vec<PlanPort>,
    /// Node configuration.
    pub config: JsonValue,
}

/// A compiled, immutable execution plan. Intent entries are kept as `(intent, entry)`
/// pairs in intent order.
#[derive(Debug, PartialEq, Eq)]
pub struct ExecutionPlan {
    /// Plan schema version.
    pub schema_version: u32,
    /// Version of the compiler that produced the plan.
    pub compiler_version: String,
    /// Hash of the source definition.
    pub definition_hash: String,
    /// Hash of the plan itself.
    pub plan_hash: String,
    /// Nodes.
    pub nodes: Vec<PlanNode>,
    /// Edges as `(from, to)`.
    pub edges: Vec<(Uid, Uid)>,
    /// Intent entries.
    pub intent_entries: Vec<(StandardIntent, IntentEntry)>,
    /// Effect declarations.
    pub effects: Vec<EffectDeclaration>,
    /// Capabilities the plan requires.
    pub capability_requirements: Vec<String>,
}

} // verus!
