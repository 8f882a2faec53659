//! The rule system's public contract: safe errors and their mapping from storage and
//! runtime failures, capability grants, configuration and library DTOs.
//!
//! No message, diagnostic or trace built here holds a body, cookie, token, URL query,
//! plan JSON or opaque payload.

use vstd::prelude::*;
use vstd::string::StringExecFns;

use crate::model::{Diagnostic, ExecutionPlan, StandardIntent};
use crate::plan_runtime::{PlanRuntimeError, RuntimeFailureCode};
use crate::policy::{PolicyCapabilities, SystemCapabilities, allows, Capability};
use crate::graph_reach::Uid;
use crate::text::{chars_eq, chars_of, to_owned_string, trim, trim_chars};

verus! {

/// Lifecycle stage a rule failure belongs to.
#[derive(Debug, Clone, Copy, PartialEq, Eq, Structural)]
pub enum RuleErrorStage {
    /// Source input or adaptation.
    Import,
    /// Definition validation.
    Validation,
    /// Compilation into a plan.
    Compile,
    /// Candidate staging, reading, tampering or expiry.
    Candidate,
    /// Install commit.
    Install,
    /// The grant does not cover the required capabilities.
    Capability,
    /// Execution start or session state.
    Execution,
    /// Effect adapter or durable archive.
    Effect,
    /// Event or projection persistence.
    Persistence,
    /// Replay pin, artifact or historical effect checks.
    Replay,
    /// The execution was cancelled.
    Cancelled,
    /// An unexpected internal state.
    Internal,
}

/// Safe error of the rule lifecycle.
#[derive(Debug, Clone, PartialEq, Eq)]
pub struct RuleError {
    /// Failing stage.
    pub stage: RuleErrorStage,
    /// Stable machine-readable code.
    pub code: String,
    /// Short message safe to show to the user.
    pub message: String,
    /// Trace of the candidate, install or execution.
    pub trace_id: String,
    /// Whether retrying with the same input can succeed.
    pub retryable: bool,
    /// Compiler diagnostics.
    pub diagnostics: Vec<Diagnostic>,
}

impl RuleError {
    /// Builds an error from its parts.
    pub fn new(
        stage: RuleErrorStage,
        code: &str,
        message: &str,
        trace_id: &str,
        retryable: bool,
        diagnostics: Vec<Diagnostic>,
    ) -> (e: RuleError)
        ensures
            e.stage == stage,
            e.code@ == code@,
            e.message@ == message@,
            e.trace_id@ == trace_id@,
            e.retryable == retryable,
            e.diagnostics@ == diagnostics@,
    {
        RuleError {
            stage,
            code: to_owned_string(code),
            message: to_owned_string(message),
            trace_id: to_owned_string(trace_id),
            retryable,
            diagnostics,
        }
    }

    /// Display text: the code, `": "`, then the message.
    pub fn to_string(&self) -> (s: String)
        ensures
            s@ == self.code@ + ": "@ + self.message@,
    {
        let mut s = self.code.clone();
        s.append(": ");
        s.append(self.message.as_str());
        s
    }
}

/// Failures reported by event storage.
#[derive(Debug, Clone, PartialEq, Eq)]
pub enum StorageError {
    /// The candidate does not exist.
    CandidateMissing,
    /// The candidate expired.
    CandidateExpired,
    /// The candidate was consumed or cannot be installed.
    CandidateUnavailable,
    /// The grant does not cover what the source needs.
    GrantInsufficient,
    /// The source credential snapshot is missing, tampered or unreadable.
    SourceCredentialUnavailable,
    /// The source is not installed.
    SourceMissing,
    /// The execution does not exist.
    ExecutionMissing,
    /// A stream version conflict.
    VersionConflict {
        /// Version the writer expected.
        expected: u64,
        /// Version found.
        actual: u64,
    },
    /// An artifact is unavailable.
    ArtifactUnavailable(String),
    /// The master key is unavailable.
    MasterKeyUnavailable,
    /// A secret is unavailable.
    SecretUnavailable,
    /// The replay archive is unavailable.
    ReplayUnavailable(String),
    /// The request does not match the events already stored.
    IdempotencyMismatch,
    /// The writer was closed.
    WriterClosed,
    /// The writer is unavailable.
    WriterUnavailable,
    /// A database failure.
    Database(String),
    /// A file system failure.
    FileSystem(String),
    /// A keyring failure.
    Keyring,
    /// A serialization failure.
    Serialization,
    /// Invalid input.
    InvalidInput(String),
}

/// Stage, code, message and retryability that a storage failure maps to; failures with
/// no fixed stage take `default_stage`.
pub open spec fn storage_error_parts(e: StorageError, default_stage: RuleErrorStage) -> (
    RuleErrorStage,
    Seq<char>,
    Seq<char>,
    bool,
) {
    match e {
        StorageError::CandidateMissing => (RuleErrorStage::Candidate, "candidate_missing"@, "candidate 不存在"@, false),
        StorageError::CandidateExpired => (RuleErrorStage::Candidate, "candidate_expired"@, "candidate 已过期"@, false),
        StorageError::CandidateUnavailable => (
            RuleErrorStage::Candidate,
            "candidate_unavailable"@,
            "candidate 已被消费或不可安装"@,
            false,
        ),
        StorageError::GrantInsufficient => (
            RuleErrorStage::Capability,
            "grant_insufficient"@,
            "批准的 capability 未覆盖来源所需能力"@,
            false,
        ),
        StorageError::SourceCredentialUnavailable => (
            default_stage,
            "source_credentials_unavailable"@,
            "来源凭证快照缺失、篡改或不可读取"@,
            false,
        ),
        StorageError::SourceMissing => (RuleErrorStage::Execution, "source_not_installed"@, "来源尚未安装"@, false),
        StorageError::ExecutionMissing => (RuleErrorStage::Execution, "execution_missing"@, "execution 不存在"@, false),
        StorageError::VersionConflict { .. } => (default_stage, "stream_version_conflict"@, "持久化流版本发生冲突"@, true),
        StorageError::ArtifactUnavailable(_) | StorageError::MasterKeyUnavailable | StorageError::SecretUnavailable
        | StorageError::ReplayUnavailable(_) => (
            RuleErrorStage::Replay,
            "replay_pin_unavailable"@,
            "历史 execution 的固定 archive 不可 replay"@,
            false,
        ),
        StorageError::IdempotencyMismatch => (default_stage, "idempotency_mismatch"@, "持久化请求与已有事件不一致"@, false),
        StorageError::WriterClosed | StorageError::WriterUnavailable => (
            RuleErrorStage::Persistence,
            "storage_writer_unavailable"@,
            "本地事件存储当前不可用"@,
            true,
        ),
        StorageError::Database(_) | StorageError::FileSystem(_) | StorageError::Keyring | StorageError::Serialization
        | StorageError::InvalidInput(_) => (default_stage, "storage_operation_failed"@, "本地持久化操作失败"@, false),
    }
}

/// Maps a storage failure to a safe error that reveals no path, artifact reference or
/// secret.
pub fn storage_error(error: &StorageError, default_stage: RuleErrorStage, trace_id: &str) -> (e: RuleError)
    ensures
        (e.stage, e.code@, e.message@, e.retryable) == storage_error_parts(*error, default_stage),
        e.trace_id@ == trace_id@,
        e.diagnostics@.len() == 0,
{
    let (stage, code, message, retryable) = match error {
        StorageError::CandidateMissing => (RuleErrorStage::Candidate, "candidate_missing", "candidate 不存在", false),
        StorageError::CandidateExpired => (RuleErrorStage::Candidate, "candidate_expired", "candidate 已过期", false),
        StorageError::CandidateUnavailable => (
            RuleErrorStage::Candidate,
            "candidate_unavailable",
            "candidate 已被消费或不可安装",
            false,
        ),
        StorageError::GrantInsufficient => (
            RuleErrorStage::Capability,
            "grant_insufficient",
            "批准的 capability 未覆盖来源所需能力",
            false,
        ),
        StorageError::SourceCredentialUnavailable => (
            default_stage,
            "source_credentials_unavailable",
            "来源凭证快照缺失、篡改或不可读取",
            false,
        ),
        StorageError::SourceMissing => (RuleErrorStage::Execution, "source_not_installed", "来源尚未安装", false),
        StorageError::ExecutionMissing => (RuleErrorStage::Execution, "execution_missing", "execution 不存在", false),
        StorageError::VersionConflict { .. } => (default_stage, "stream_version_conflict", "持久化流版本发生冲突", true),
        StorageError::ArtifactUnavailable(_) | StorageError::MasterKeyUnavailable | StorageError::SecretUnavailable
        | StorageError::ReplayUnavailable(_) => (
            RuleErrorStage::Replay,
            "replay_pin_unavailable",
            "历史 execution 的固定 archive 不可 replay",
            false,
        ),
        StorageError::IdempotencyMismatch => (default_stage, "idempotency_mismatch", "持久化请求与已有事件不一致", false),
        StorageError::WriterClosed | StorageError::WriterUnavailable => (
            RuleErrorStage::Persistence,
            "storage_writer_unavailable",
            "本地事件存储当前不可用",
            true,
        ),
        StorageError::Database(_) | StorageError::FileSystem(_) | StorageError::Keyring | StorageError::Serialization
        | StorageError::InvalidInput(_) => (default_stage, "storage_operation_failed", "本地持久化操作失败", false),
    };
    RuleError::new(stage, code, message, trace_id, retryable, Vec::new())
}

/// Stage, code and message that a persisted runtime failure maps to.
pub open spec fn runtime_failure_parts(code: RuntimeFailureCode) -> (RuleErrorStage, Seq<char>, Seq<char>) {
    match code {
        RuntimeFailureCode::CapabilityDenied => (
            RuleErrorStage::Capability,
            "runtime_capability_denied"@,
            "运行时拒绝未批准的 capability"@,
        ),
        RuntimeFailureCode::EffectFailed => (RuleErrorStage::Effect, "effect_failed"@, "执行外部 effect 失败"@),
        RuntimeFailureCode::CaptureFailed => (RuleErrorStage::Effect, "effect_capture_failed"@, "effect durable capture 失败"@),
        RuntimeFailureCode::CaptureReceiptMismatch => (
            RuleErrorStage::Effect,
            "effect_capture_receipt_mismatch"@,
            "effect durable capture 收据不匹配"@,
        ),
        RuntimeFailureCode::CaptureWitnessInvalid => (
            RuleErrorStage::Effect,
            "effect_capture_witness_invalid"@,
            "effect durable capture witness 完整性校验失败"@,
        ),
        RuntimeFailureCode::ReplayCaptureMissing => (
            RuleErrorStage::Replay,
            "replay_capture_missing"@,
            "历史 execution 缺少 effect capture"@,
        ),
        RuntimeFailureCode::ReplayRecordMismatch => (
            RuleErrorStage::Replay,
            "replay_record_mismatch"@,
            "历史 effect capture 不属于固定 replay pin"@,
        ),
        RuntimeFailureCode::ReplayFingerprintMismatch => (
            RuleErrorStage::Replay,
            "replay_fingerprint_mismatch"@,
            "历史 effect fingerprint 不匹配"@,
        ),
        RuntimeFailureCode::ReplayOutputHashMismatch => (
            RuleErrorStage::Replay,
            "replay_output_hash_mismatch"@,
            "历史 effect 输出 hash 不匹配"@,
        ),
        RuntimeFailureCode::ReplayWitnessMismatch => (
            RuleErrorStage::Replay,
            "replay_witness_mismatch"@,
            "历史 effect witness 不匹配"@,
        ),
        RuntimeFailureCode::InputTypeMismatch => (
            RuleErrorStage::Execution,
            "runtime_input_type_mismatch"@,
            "immutable Plan 节点输入类型不匹配"@,
        ),
        RuntimeFailureCode::Internal => (RuleErrorStage::Internal, "runtime_internal_failure"@, "运行时出现内部失败"@),
    }
}

/// Maps a persisted runtime failure to the caller-visible safe error (never retryable).
pub fn runtime_failure_error(code: RuntimeFailureCode, trace_id: &str) -> (e: RuleError)
    ensures
        (e.stage, e.code@, e.message@) == runtime_failure_parts(code),
        e.trace_id@ == trace_id@,
        !e.retryable,
        e.diagnostics@.len() == 0,
{
    let (stage, c, message) = match code {
        RuntimeFailureCode::CapabilityDenied => (
            RuleErrorStage::Capability,
            "runtime_capability_denied",
            "运行时拒绝未批准的 capability",
        ),
        RuntimeFailureCode::EffectFailed => (RuleErrorStage::Effect, "effect_failed", "执行外部 effect 失败"),
        RuntimeFailureCode::CaptureFailed => (RuleErrorStage::Effect, "effect_capture_failed", "effect durable capture 失败"),
        RuntimeFailureCode::CaptureReceiptMismatch => (
            RuleErrorStage::Effect,
            "effect_capture_receipt_mismatch",
            "effect durable capture 收据不匹配",
        ),
        RuntimeFailureCode::CaptureWitnessInvalid => (
            RuleErrorStage::Effect,
            "effect_capture_witness_invalid",
            "effect durable capture witness 完整性校验失败",
        ),
        RuntimeFailureCode::ReplayCaptureMissing => (
            RuleErrorStage::Replay,
            "replay_capture_missing",
            "历史 execution 缺少 effect capture",
        ),
        RuntimeFailureCode::ReplayRecordMismatch => (
            RuleErrorStage::Replay,
            "replay_record_mismatch",
            "历史 effect capture 不属于固定 replay pin",
        ),
        RuntimeFailureCode::ReplayFingerprintMismatch => (
            RuleErrorStage::Replay,
            "replay_fingerprint_mismatch",
            "历史 effect fingerprint 不匹配",
        ),
        RuntimeFailureCode::ReplayOutputHashMismatch => (
            RuleErrorStage::Replay,
            "replay_output_hash_mismatch",
            "历史 effect 输出 hash 不匹配",
        ),
        RuntimeFailureCode::ReplayWitnessMismatch => (
            RuleErrorStage::Replay,
            "replay_witness_mismatch",
            "历史 effect witness 不匹配",
        ),
        RuntimeFailureCode::InputTypeMismatch => (
            RuleErrorStage::Execution,
            "runtime_input_type_mismatch",
            "immutable Plan 节点输入类型不匹配",
        ),
        RuntimeFailureCode::Internal => (RuleErrorStage::Internal, "runtime_internal_failure", "运行时出现内部失败"),
    };
    RuleError::new(stage, c, message, trace_id, false, Vec::new())
}

/// Code and message that a plan runtime start or validation error maps to.
pub open spec fn runtime_error_parts(e: PlanRuntimeError) -> (Seq<char>, Seq<char>) {
    match e {
        PlanRuntimeError::MissingIntent => ("unsupported_intent"@, "immutable Plan 未声明该标准意图"@),
        PlanRuntimeError::SchemaVersionMismatch { .. } | PlanRuntimeError::CompilerVersionMismatch
        | PlanRuntimeError::PlanHashMismatch => ("plan_pin_invalid"@, "immutable Plan 版本或 hash 无效"@),
        PlanRuntimeError::InvalidConfiguration(_) => ("runtime_configuration_invalid"@, "PlanRuntime 配置无效"@),
        PlanRuntimeError::MissingTokioRuntime => ("runtime_unavailable"@, "当前线程没有可用 Tokio runtime"@),
        PlanRuntimeError::MissingNode(_) | PlanRuntimeError::InvalidPlan(_) => ("plan_invalid"@, "immutable Plan 结构无效"@),
        PlanRuntimeError::UnsupportedControlFlow => (
            "plan_control_flow_unsupported"@,
            "immutable Plan 包含不支持的控制流"@,
        ),
        PlanRuntimeError::CanonicalSerialization => (
            "plan_canonicalization_failed"@,
            "immutable Plan 无法验证 canonical hash"@,
        ),
    }
}

/// Maps a plan runtime start or validation error to a safe execution-stage error.
pub fn runtime_error(error: &PlanRuntimeError, trace_id: &str) -> (e: RuleError)
    ensures
        e.stage == RuleErrorStage::Execution,
        (e.code@, e.message@) == runtime_error_parts(*error),
        e.trace_id@ == trace_id@,
        !e.retryable,
        e.diagnostics@.len() == 0,
{
    let (code, message) = match error {
        PlanRuntimeError::MissingIntent => ("unsupported_intent", "immutable Plan 未声明该标准意图"),
        PlanRuntimeError::SchemaVersionMismatch { .. } | PlanRuntimeError::CompilerVersionMismatch
        | PlanRuntimeError::PlanHashMismatch => ("plan_pin_invalid", "immutable Plan 版本或 hash 无效"),
        PlanRuntimeError::InvalidConfiguration(_) => ("runtime_configuration_invalid", "PlanRuntime 配置无效"),
        PlanRuntimeError::MissingTokioRuntime => ("runtime_unavailable", "当前线程没有可用 Tokio runtime"),
        PlanRuntimeError::MissingNode(_) | PlanRuntimeError::InvalidPlan(_) => ("plan_invalid", "immutable Plan 结构无效"),
        PlanRuntimeError::UnsupportedControlFlow => ("plan_control_flow_unsupported", "immutable Plan 包含不支持的控制流"),
        PlanRuntimeError::CanonicalSerialization => (
            "plan_canonicalization_failed",
            "immutable Plan 无法验证 canonical hash",
        ),
    };
    RuleError::new(RuleErrorStage::Execution, code, message, trace_id, false, Vec::new())
}

/// Converts a configured duration in milliseconds to the signed milliseconds storage uses;
/// a duration beyond `i64::MAX` is refused as an overflowing candidate TTL.
pub fn duration_millis(millis: u128, trace_id: &str) -> (r: Result<i64, RuleError>)
    ensures
        millis <= i64::MAX ==> r == Ok::<i64, RuleError>(millis as i64),
        millis > i64::MAX ==> (r matches Err(e) && e.stage == RuleErrorStage::Candidate
            && e.code@ == "candidate_ttl_overflow"@ && e.message@ == "candidate 到期时长超出支持范围"@
            && e.trace_id@ == trace_id@ && !e.retryable && e.diagnostics@.len() == 0),
{
    if millis <= 9223372036854775807 {
        Ok(millis as i64)
    } else {
        Err(RuleError::new(
            RuleErrorStage::Candidate,
            "candidate_ttl_overflow",
            "candidate 到期时长超出支持范围",
            trace_id,
            false,
            Vec::new(),
        ))
    }
}

/// The capabilities a user granted to a source.
#[derive(Debug, Clone, Copy, PartialEq, Eq, Structural)]
pub struct CapabilityGrant(pub PolicyCapabilities);

/// `grant` allows everything that `required` asks for.
pub open spec fn grant_covers(grant: PolicyCapabilities, required: PolicyCapabilities) -> bool {
    (!required.network || grant.network) && (!required.system.fs || grant.system.fs) && (
    !required.system.env || grant.system.env) && (!required.system.process || grant.system.process)
}

impl CapabilityGrant {
    /// A grant of nothing.
    pub fn none() -> (g: CapabilityGrant)
        ensures
            !g.0.network && !g.0.system.fs && !g.0.system.env && !g.0.system.process,
    {
        CapabilityGrant(PolicyCapabilities {
            network: false,
            system: SystemCapabilities { fs: false, env: false, process: false },
        })
    }

    /// A grant of network access only.
    pub fn network_only() -> (g: CapabilityGrant)
        ensures
            g.0.network && !g.0.system.fs && !g.0.system.env && !g.0.system.process,
    {
        CapabilityGrant(PolicyCapabilities {
            network: true,
            system: SystemCapabilities { fs: false, env: false, process: false },
        })
    }

    /// Whether the grant includes network access.
    pub fn requires_network(&self) -> (b: bool)
        ensures
            b == self.0.network,
    {
        self.0.network
    }

    /// Wraps policy capabilities as a grant.
    pub fn from_policy(value: PolicyCapabilities) -> (g: CapabilityGrant)
        ensures
            g.0 == value,
    {
        CapabilityGrant(value)
    }

    /// The granted capabilities.
    pub fn policy(&self) -> (p: &PolicyCapabilities)
        ensures
            *p == self.0,
    {
        &self.0
    }

    /// Whether this grant covers what `required` asks for.
    pub fn covers(&self, required: &PolicyCapabilities) -> (b: bool)
        ensures
            b == grant_covers(self.0, *required),
    {
        (!required.network || self.0.network) && (!required.system.fs || self.0.system.fs) && (
        !required.system.env || self.0.system.env) && (!required.system.process || self.0.system.process)
    }
}

/// A grant covers exactly when it allows every capability the requirement allows.
pub proof fn law_covers_is_capability_inclusion(grant: PolicyCapabilities, required: PolicyCapabilities)
    ensures
        grant_covers(grant, required) <==> forall|c: Capability| allows(required, c) ==> #[trigger] allows(grant, c),
{
    if forall|c: Capability| allows(required, c) ==> #[trigger] allows(grant, c) {
        assert(allows(required, Capability::Network) ==> allows(grant, Capability::Network));
        assert(allows(required, Capability::Fs) ==> allows(grant, Capability::Fs));
        assert(allows(required, Capability::Env) ==> allows(grant, Capability::Env));
        assert(allows(required, Capability::Process) ==> allows(grant, Capability::Process));
    }
}

/// Every grant covers its own capabilities.
pub proof fn law_covers_reflexive(grant: PolicyCapabilities)
    ensures
        grant_covers(grant, grant),
{
}

/// Coverage chains: a grant that covers a second grant covers all that the second covers.
pub proof fn law_covers_transitive(a: PolicyCapabilities, b: PolicyCapabilities, c: PolicyCapabilities)
    requires
        grant_covers(a, b),
        grant_covers(b, c),
    ensures
        grant_covers(a, c),
{
}

/// The capabilities of the empty grant.
pub open spec fn no_capabilities() -> PolicyCapabilities {
    PolicyCapabilities { network: false, system: SystemCapabilities { fs: false, env: false, process: false } }
}

/// The empty grant covers only requirements of nothing, and every grant covers those.
pub proof fn law_none_covers_only_nothing(required: PolicyCapabilities, grant: PolicyCapabilities)
    ensures
        grant_covers(no_capabilities(), required) <==> required == no_capabilities(),
        grant_covers(grant, no_capabilities()),
{
}

/// Rule input a candidate is prepared from.
#[derive(Debug, Clone, PartialEq, Eq)]
pub enum RuleInput {
    /// A MacCMS JSON API at a URL.
    MaccmsJson {
        /// API URL.
        url: String,
    },
    /// A Legado source document.
    Legado {
        /// The source JSON.
        source_json: String,
    },
}

/// Stable identity of an installed source.
#[derive(Debug, Clone, PartialEq, Eq)]
pub struct SourceId(pub String);

impl SourceId {
    /// Wraps a source identity.
    pub fn from_identity(identity: String) -> (id: SourceId)
        ensures
            id.0@ == identity@,
    {
        SourceId(identity)
    }

    /// The source identity.
    pub fn as_identity(&self) -> (s: &str)
        ensures
            s@ == self.0@,
    {
        self.0.as_str()
    }
}

/// Reading progress of a library entry.
#[derive(Debug, Clone, PartialEq, Eq)]
pub struct LibraryProgress {
    /// Unit being read, if any.
    pub unit_id: Option<String>,
    /// Position within it.
    pub position: u64,
    /// Total, if known.
    pub total: Option<u64>,
}

/// One entry of the library projection.
#[derive(Debug, Clone, PartialEq, Eq)]
pub struct LibraryProjectionEntry {
    /// Resource identifier.
    pub resource_id: String,
    /// Marked as favorite.
    pub favorite: bool,
    /// Pinned.
    pub pinned: bool,
    /// When last opened.
    pub last_opened_at: Option<String>,
    /// Reading progress.
    pub progress: Option<LibraryProgress>,
    /// Entry revision.
    pub revision: u64,
    /// Global sequence of the last update.
    pub updated_global_seq: u64,
}

/// The library projection at a global sequence.
#[derive(Debug, Clone, PartialEq, Eq)]
pub struct LibraryProjection {
    /// Global sequence the projection reflects.
    pub global_seq: u64,
    /// Entries.
    pub entries: Vec<LibraryProjectionEntry>,
}

/// An update of one library entry.
#[derive(Debug, Clone, PartialEq, Eq)]
pub struct LibraryEntryUpdate {
    /// Resource identifier.
    pub resource_id: String,
    /// Marked as favorite.
    pub favorite: bool,
    /// Pinned.
    pub pinned: bool,
    /// When last opened.
    pub last_opened_at: Option<String>,
    /// Reading progress.
    pub progress: Option<LibraryProgress>,
    /// Entry version the update expects.
    pub expected_version: u64,
}

/// Receipt of a stored library update.
#[derive(Debug, Clone, Copy, PartialEq, Eq, Structural)]
pub struct LibraryUpdateReceipt {
    /// Global sequence of the update.
    pub global_seq: u64,
    /// New entry revision.
    pub revision: u64,
}

/// Local persistence and bounded execution configuration of the rule system.
#[derive(Debug, Clone, PartialEq, Eq)]
pub struct RuleSystemConfig {
    /// Event database path.
    pub database_path: String,
    /// Artifact directory.
    pub artifact_root: String,
    /// Keyring service name of the master key.
    pub keyring_service: String,
    /// How long a staged candidate lives, in milliseconds.
    pub candidate_ttl_millis: u64,
    /// Plans kept in the cache.
    pub plan_cache_capacity: usize,
    /// Capacity of a session's event stream.
    pub session_event_capacity: usize,
    /// Executions running at once.
    pub max_concurrent_executions: usize,
    /// Effects running at once, over all sources.
    pub max_concurrent_effects: usize,
    /// Effects running at once for one source.
    pub max_concurrent_effects_per_source: usize,
    /// Whether HTTP may reach loopback fixtures.
    pub local_fixture_http: bool,
}

/// The desktop defaults for the given paths.
pub open spec fn desktop_config(database_path: Seq<char>, artifact_root: Seq<char>, c: RuleSystemConfig) -> bool {
    &&& c.database_path@ == database_path
    &&& c.artifact_root@ == artifact_root
    &&& c.keyring_service@ == "lanjing.event-store.master-key"@
    &&& c.candidate_ttl_millis == 86_400_000
    &&& c.plan_cache_capacity == 64
    &&& c.session_event_capacity == 64
    &&& c.max_concurrent_executions == 16
    &&& c.max_concurrent_effects == 16
    &&& c.max_concurrent_effects_per_source == 4
}

impl RuleSystemConfig {
    /// Desktop defaults: 24-hour candidates, 64 cached plans and session events, 16
    /// executions and effects at once, 4 effects per source, no loopback HTTP.
    pub fn desktop(database_path: String, artifact_root: String) -> (c: RuleSystemConfig)
        ensures
            desktop_config(database_path@, artifact_root@, c),
            !c.local_fixture_http,
    {
        RuleSystemConfig {
            database_path,
            artifact_root,
            keyring_service: to_owned_string("lanjing.event-store.master-key"),
            candidate_ttl_millis: 86_400_000,
            plan_cache_capacity: 64,
            session_event_capacity: 64,
            max_concurrent_executions: 16,
            max_concurrent_effects: 16,
            max_concurrent_effects_per_source: 4,
            local_fixture_http: false,
        }
    }

    /// The desktop defaults, but allowing HTTP to loopback fixtures.
    pub fn local_fixture(database_path: String, artifact_root: String) -> (c: RuleSystemConfig)
        ensures
            desktop_config(database_path@, artifact_root@, c),
            c.local_fixture_http,
    {
        let mut c = RuleSystemConfig::desktop(database_path, artifact_root);
        c.local_fixture_http = true;
        c
    }

    /// Replaces the keyring service name.
    pub fn with_keyring_service(self, keyring_service: String) -> (c: RuleSystemConfig)
        ensures
            c == (RuleSystemConfig { keyring_service, ..self }),
    {
        let mut c = self;
        c.keyring_service = keyring_service;
        c
    }

    /// Replaces the candidate lifetime.
    pub fn with_candidate_ttl(self, candidate_ttl_millis: u64) -> (c: RuleSystemConfig)
        ensures
            c == (RuleSystemConfig { candidate_ttl_millis, ..self }),
    {
        let mut c = self;
        c.candidate_ttl_millis = candidate_ttl_millis;
        c
    }
}


/// The failure categories of source compilation.
#[derive(Debug, Clone, Copy, PartialEq, Eq, Structural)]
pub enum CompilerErrorKind {
    /// The definition did not validate.
    Validation,
    /// The source rule text is malformed.
    SyntaxError,
    /// The rule uses a selector that is not supported.
    UnsupportedSelector,
    /// The rule's version is not supported.
    UnsupportedVersion,
    /// The plan could not be serialised.
    Serialization,
    /// The compiler failed internally.
    Internal,
}

/// Stage, code and message that a compilation failure maps to.
pub open spec fn compiler_error_parts(kind: CompilerErrorKind) -> (RuleErrorStage, Seq<char>, Seq<char>) {
    match kind {
        CompilerErrorKind::Validation => (
            RuleErrorStage::Validation,
            "definition_validation_failed"@,
            "来源 Definition 未通过校验"@,
        ),
        CompilerErrorKind::SyntaxError => (RuleErrorStage::Compile, "source_syntax_invalid"@, "来源规则语法无效"@),
        CompilerErrorKind::UnsupportedSelector => (
            RuleErrorStage::Compile,
            "selector_unsupported"@,
            "来源规则包含不支持的选择器"@,
        ),
        CompilerErrorKind::UnsupportedVersion => (
            RuleErrorStage::Compile,
            "source_version_unsupported"@,
            "来源规则版本不受支持"@,
        ),
        CompilerErrorKind::Serialization => (
            RuleErrorStage::Compile,
            "plan_serialization_failed"@,
            "immutable Plan 序列化失败"@,
        ),
        CompilerErrorKind::Internal => (
            RuleErrorStage::Internal,
            "compiler_internal_failure"@,
            "compiler 出现内部失败"@,
        ),
    }
}

/// Maps a compilation failure, with the diagnostics the compiler reported, to a safe
/// pre-install error that keeps those diagnostics.
pub fn compiler_error(kind: CompilerErrorKind, diagnostics: Vec<Diagnostic>, trace_id: &str) -> (e: RuleError)
    ensures
        (e.stage, e.code@, e.message@) == compiler_error_parts(kind),
        e.trace_id@ == trace_id@,
        !e.retryable,
        e.diagnostics@ == diagnostics@,
{
    let (stage, code, message) = match kind {
        CompilerErrorKind::Validation => (
            RuleErrorStage::Validation,
            "definition_validation_failed",
            "来源 Definition 未通过校验",
        ),
        CompilerErrorKind::SyntaxError => (RuleErrorStage::Compile, "source_syntax_invalid", "来源规则语法无效"),
        CompilerErrorKind::UnsupportedSelector => (
            RuleErrorStage::Compile,
            "selector_unsupported",
            "来源规则包含不支持的选择器",
        ),
        CompilerErrorKind::UnsupportedVersion => (
            RuleErrorStage::Compile,
            "source_version_unsupported",
            "来源规则版本不受支持",
        ),
        CompilerErrorKind::Serialization => (
            RuleErrorStage::Compile,
            "plan_serialization_failed",
            "immutable Plan 序列化失败",
        ),
        CompilerErrorKind::Internal => (RuleErrorStage::Internal, "compiler_internal_failure", "compiler 出现内部失败"),
    };
    RuleError::new(stage, code, message, trace_id, false, diagnostics)
}

/// The ways a source input can fail to import.
#[derive(Debug, Clone, Copy, PartialEq, Eq, Structural)]
pub enum ImportFailure {
    /// The Maccms JSON input does not give a definition.
    MaccmsDefinition,
    /// The Legado source text is not valid source JSON.
    LegadoSourceJson,
    /// The Legado source cannot be adapted to a definition.
    LegadoDefinition,
    /// The Legado static credentials cannot be snapshotted safely.
    LegadoCredentials,
}

/// Code and message that an import failure maps to.
pub open spec fn import_error_parts(failure: ImportFailure) -> (Seq<char>, Seq<char>) {
    match failure {
        ImportFailure::MaccmsDefinition => ("maccms_definition_invalid"@, "Maccms JSON 来源输入无效"@),
        ImportFailure::LegadoSourceJson => ("legado_source_invalid"@, "Legado 书源 JSON 无效"@),
        ImportFailure::LegadoDefinition => ("legado_definition_invalid"@, "Legado 书源无法转换为 Definition"@),
        ImportFailure::LegadoCredentials => ("legado_credentials_invalid"@, "Legado 静态凭证无法安全快照"@),
    }
}

/// Maps an import failure to the safe, non-retryable import-stage error of the install
/// candidate, with no diagnostics.
pub fn import_error(failure: ImportFailure, trace_id: &str) -> (e: RuleError)
    ensures
        e.stage == RuleErrorStage::Import,
        (e.code@, e.message@) == import_error_parts(failure),
        e.trace_id@ == trace_id@,
        !e.retryable,
        e.diagnostics@.len() == 0,
{
    let (code, message) = match failure {
        ImportFailure::MaccmsDefinition => ("maccms_definition_invalid", "Maccms JSON 来源输入无效"),
        ImportFailure::LegadoSourceJson => ("legado_source_invalid", "Legado 书源 JSON 无效"),
        ImportFailure::LegadoDefinition => ("legado_definition_invalid", "Legado 书源无法转换为 Definition"),
        ImportFailure::LegadoCredentials => ("legado_credentials_invalid", "Legado 静态凭证无法安全快照"),
    };
    RuleError::new(RuleErrorStage::Import, code, message, trace_id, false, Vec::new())
}

/// How a pinned execution ran.
#[derive(Debug, Clone, Copy, PartialEq, Eq, Structural)]
pub enum RuntimeExecutionMode {
    /// Real effect adapters, each effect captured durably.
    Live,
    /// Effects read from the archive of an earlier execution.
    Replay {
        /// The execution being replayed.
        archived_execution_id: Uid,
    },
}

/// The fields of a stored replay pin that replay checks.
#[derive(Debug, Clone, PartialEq, Eq)]
pub struct ExecutionReplayPin {
    /// Identity of the pinned source.
    pub source_identity: String,
    /// Mode of the pinned execution.
    pub mode: RuntimeExecutionMode,
    /// Identifier of the pinned source profile.
    pub profile_id: String,
    /// Base URL of the pinned source snapshot.
    pub base_url: String,
}

/// Result of checking a replay pin against the requested source and archived execution:
/// the source must match, the pin must be a replay of that execution, and the pinned
/// snapshot must name the same source and a base URL.
pub open spec fn replay_snapshot_result(
    requested_source: Seq<char>,
    archived_execution_id: Uid,
    pin: ExecutionReplayPin,
) -> Option<(Seq<char>, Seq<char>)> {
    if requested_source != pin.source_identity@ {
        Some(("replay_source_mismatch"@, "请求来源不属于历史 execution pin"@))
    } else if pin.mode != (RuntimeExecutionMode::Replay { archived_execution_id }) {
        Some(("replay_mode_mismatch"@, "历史 execution pin 的 replay mode 无效"@))
    } else if pin.profile_id@ != pin.source_identity@ || trim(pin.base_url@).len() == 0 {
        Some(("replay_source_snapshot_invalid"@, "历史 execution 的固定来源快照无效"@))
    } else {
        None
    }
}

/// Checks that a replay pin belongs to the requested source and archived execution, with
/// a usable source snapshot; each mismatch is a replay error.
pub fn replay_snapshot(
    requested_source: &SourceId,
    archived_execution_id: Uid,
    pin: &ExecutionReplayPin,
    trace_id: &str,
) -> (r: Result<(), RuleError>)
    ensures
        match replay_snapshot_result(requested_source.0@, archived_execution_id, *pin) {
            None => r is Ok,
            Some((code, message)) => r matches Err(e) && e.stage == RuleErrorStage::Replay && e.code@ == code
                && e.message@ == message && e.trace_id@ == trace_id@ && !e.retryable && e.diagnostics@.len() == 0,
        },
{
    if !chars_eq(&chars_of(requested_source.as_identity()), &chars_of(pin.source_identity.as_str())) {
        return Err(RuleError::new(
            RuleErrorStage::Replay,
            "replay_source_mismatch",
            "请求来源不属于历史 execution pin",
            trace_id,
            false,
            Vec::new(),
        ));
    }
    let mode_ok = match pin.mode {
        RuntimeExecutionMode::Replay { archived_execution_id: value } => value == archived_execution_id,
        RuntimeExecutionMode::Live => false,
    };
    if !mode_ok {
        return Err(RuleError::new(
            RuleErrorStage::Replay,
            "replay_mode_mismatch",
            "历史 execution pin 的 replay mode 无效",
            trace_id,
            false,
            Vec::new(),
        ));
    }
    if !chars_eq(&chars_of(pin.profile_id.as_str()), &chars_of(pin.source_identity.as_str()))
        || trim_chars(&chars_of(pin.base_url.as_str())).len() == 0 {
        return Err(RuleError::new(
            RuleErrorStage::Replay,
            "replay_source_snapshot_invalid",
            "历史 execution 的固定来源快照无效",
            trace_id,
            false,
            Vec::new(),
        ));
    }
    Ok(())
}


/// When a candidate staged at `now_ms` expires: `ttl_ms` later, refused when that
/// overflows.
pub fn candidate_expiry(now_ms: i64, ttl_ms: i64, trace_id: &str) -> (r: Result<i64, RuleError>)
    ensures
        i64::MIN <= now_ms + ttl_ms <= i64::MAX ==> r == Ok::<i64, RuleError>((now_ms + ttl_ms) as i64),
        !(i64::MIN <= now_ms + ttl_ms <= i64::MAX) ==> (r matches Err(e) && e.stage == RuleErrorStage::Candidate
            && e.code@ == "candidate_expiry_overflow"@ && e.message@ == "candidate 到期时刻超出支持范围"@
            && e.trace_id@ == trace_id@ && !e.retryable && e.diagnostics@.len() == 0),
{
    match now_ms.checked_add(ttl_ms) {
        Some(t) => Ok(t),
        None => Err(RuleError::new(
            RuleErrorStage::Candidate,
            "candidate_expiry_overflow",
            "candidate 到期时刻超出支持范围",
            trace_id,
            false,
            Vec::new(),
        )),
    }
}

/// Result of checking a staged candidate before it is installed: the durable staging must
/// agree with the preview shown earlier, the candidate must not have expired, and the
/// grant must cover what the source requires.
pub open spec fn install_verdict(
    preview_matches: bool,
    expires_at_ms: i64,
    now_ms: i64,
    grant: PolicyCapabilities,
    required: PolicyCapabilities,
) -> Option<(RuleErrorStage, Seq<char>, Seq<char>)> {
    if !preview_matches {
        Some((RuleErrorStage::Candidate, "candidate_preview_mismatch"@, "candidate 安全预览与 durable staging 不一致"@))
    } else if expires_at_ms <= now_ms {
        Some((RuleErrorStage::Candidate, "candidate_expired"@, "candidate 已过期"@))
    } else if !grant_covers(grant, required) {
        Some((RuleErrorStage::Capability, "grant_insufficient"@, "批准的 capability 未覆盖来源所需能力"@))
    } else {
        None
    }
}

/// Checks a staged candidate before it is installed (see [`install_verdict`]).
pub fn check_install(
    preview_matches: bool,
    expires_at_ms: i64,
    now_ms: i64,
    grant: &CapabilityGrant,
    required: &PolicyCapabilities,
    trace_id: &str,
) -> (r: Result<(), RuleError>)
    ensures
        match install_verdict(preview_matches, expires_at_ms, now_ms, grant.0, *required) {
            None => r is Ok,
            Some((stage, code, message)) => r matches Err(e) && e.stage == stage && e.code@ == code && e.message@
                == message && e.trace_id@ == trace_id@ && !e.retryable && e.diagnostics@.len() == 0,
        },
{
    if !preview_matches {
        return Err(RuleError::new(
            RuleErrorStage::Candidate,
            "candidate_preview_mismatch",
            "candidate 安全预览与 durable staging 不一致",
            trace_id,
            false,
            Vec::new(),
        ));
    }
    if expires_at_ms <= now_ms {
        return Err(RuleError::new(RuleErrorStage::Candidate, "candidate_expired", "candidate 已过期", trace_id, false, Vec::new()));
    }
    if !grant.covers(required) {
        return Err(RuleError::new(
            RuleErrorStage::Capability,
            "grant_insufficient",
            "批准的 capability 未覆盖来源所需能力",
            trace_id,
            false,
            Vec::new(),
        ));
    }
    Ok(())
}


/// The plan declares an entry for `intent`.
pub open spec fn declares_intent(plan: ExecutionPlan, intent: StandardIntent) -> bool {
    exists|i: int| 0 <= i < plan.intent_entries@.len() && (#[trigger] plan.intent_entries@[i]).0 == intent
}

/// Checks, before an execution starts, that its plan declares the requested intent: the
/// installed plan for a live run, the pinned plan for a replay.
pub fn check_intent_declared(plan: &ExecutionPlan, intent: StandardIntent, replay: bool, trace_id: &str) -> (r: Result<
    (),
    RuleError,
>)
    ensures
        declares_intent(*plan, intent) ==> r is Ok,
        !declares_intent(*plan, intent) && !replay ==> (r matches Err(e) && e.stage == RuleErrorStage::Execution
            && e.code@ == "unsupported_intent"@ && e.message@ == "已安装来源未声明该标准意图"@ && e.trace_id@
            == trace_id@ && !e.retryable && e.diagnostics@.len() == 0),
        !declares_intent(*plan, intent) && replay ==> (r matches Err(e) && e.stage == RuleErrorStage::Replay
            && e.code@ == "unsupported_pinned_intent"@ && e.message@ == "历史 execution 的固定 Plan 未声明该标准意图"@
            && e.trace_id@ == trace_id@ && !e.retryable && e.diagnostics@.len() == 0),
{
    let mut i: usize = 0;
    while i < plan.intent_entries.len()
        invariant
            i <= plan.intent_entries@.len(),
            forall|j: int| 0 <= j < i ==> plan.intent_entries@[j].0 != intent,
        decreases plan.intent_entries@.len() - i,
    {
        if plan.intent_entries[i].0 == intent {
            return Ok(());
        }
        i = i + 1;
    }
    if replay {
        Err(RuleError::new(
            RuleErrorStage::Replay,
            "unsupported_pinned_intent",
            "历史 execution 的固定 Plan 未声明该标准意图",
            trace_id,
            false,
            Vec::new(),
        ))
    } else {
        Err(RuleError::new(
            RuleErrorStage::Execution,
            "unsupported_intent",
            "已安装来源未声明该标准意图",
            trace_id,
            false,
            Vec::new(),
        ))
    }
}

/// Checks that the execution to replay ended completed.
pub fn check_replay_source_completed(completed: bool, trace_id: &str) -> (r: Result<(), RuleError>)
    ensures
        completed ==> r is Ok,
        !completed ==> (r matches Err(e) && e.stage == RuleErrorStage::Replay && e.code@
            == "replay_execution_not_completed"@ && e.message@ == "历史 execution 未以可 replay 的完成终态结束"@
            && e.trace_id@ == trace_id@ && !e.retryable && e.diagnostics@.len() == 0),
{
    if completed {
        Ok(())
    } else {
        Err(RuleError::new(
            RuleErrorStage::Replay,
            "replay_execution_not_completed",
            "历史 execution 未以可 replay 的完成终态结束",
            trace_id,
            false,
            Vec::new(),
        ))
    }
}

/// Checks the archived execution a replay asks for, given what the store found: `None`
/// where there is no such execution, else whether it ended completed. A missing execution
/// is refused first, then one that did not complete.
pub fn check_archived_execution(found_completed: Option<bool>, trace_id: &str) -> (r: Result<(), RuleError>)
    ensures
        found_completed is None ==> (r matches Err(e) && e.stage == RuleErrorStage::Replay && e.code@
            == "replay_execution_missing"@ && e.message@ == "历史 execution 不存在"@ && e.trace_id@ == trace_id@
            && !e.retryable && e.diagnostics@.len() == 0),
        found_completed == Some(false) ==> (r matches Err(e) && e.stage == RuleErrorStage::Replay && e.code@
            == "replay_execution_not_completed"@ && e.message@ == "历史 execution 未以可 replay 的完成终态结束"@
            && e.trace_id@ == trace_id@ && !e.retryable && e.diagnostics@.len() == 0),
        found_completed == Some(true) ==> r is Ok,
{
    match found_completed {
        None => Err(RuleError::new(
            RuleErrorStage::Replay,
            "replay_execution_missing",
            "历史 execution 不存在",
            trace_id,
            false,
            Vec::new(),
        )),
        Some(completed) => check_replay_source_completed(completed, trace_id),
    }
}

/// Checks a loaded replay pin and its pinned plan, in order: the pin must belong to the
/// requested source and archived execution with a usable snapshot (see
/// [`replay_snapshot`]), then the pinned plan must declare the requested intent.
pub fn check_replay_pin(
    requested_source: &SourceId,
    archived_execution_id: Uid,
    pin: &ExecutionReplayPin,
    pinned_plan: &ExecutionPlan,
    intent: StandardIntent,
    trace_id: &str,
) -> (r: Result<(), RuleError>)
    ensures
        replay_snapshot_result(requested_source.0@, archived_execution_id, *pin) matches Some((code, message)) ==> (
        r matches Err(e) && e.stage == RuleErrorStage::Replay && e.code@ == code && e.message@ == message
            && e.trace_id@ == trace_id@ && !e.retryable && e.diagnostics@.len() == 0),
        replay_snapshot_result(requested_source.0@, archived_execution_id, *pin) is None && declares_intent(
            *pinned_plan,
            intent,
        ) ==> r is Ok,
        replay_snapshot_result(requested_source.0@, archived_execution_id, *pin) is None && !declares_intent(
            *pinned_plan,
            intent,
        ) ==> (r matches Err(e) && e.stage == RuleErrorStage::Replay && e.code@ == "unsupported_pinned_intent"@
            && e.message@ == "历史 execution 的固定 Plan 未声明该标准意图"@ && e.trace_id@ == trace_id@
            && !e.retryable && e.diagnostics@.len() == 0),
{
    match replay_snapshot(requested_source, archived_execution_id, pin, trace_id) {
        Err(e) => Err(e),
        Ok(()) => check_intent_declared(pinned_plan, intent, true, trace_id),
    }
}

/// Checks that delivering the start event left the session at the stream revision the
/// store reported, so that no event was skipped before effects run.
pub fn check_start_sequence(persisted_sequence: u64, revision: u64, trace_id: &str) -> (r: Result<(), RuleError>)
    ensures
        persisted_sequence == revision ==> r is Ok,
        persisted_sequence != revision ==> (r matches Err(e) && e.stage == RuleErrorStage::Persistence && e.code@
            == "execution_start_sequence_mismatch"@ && e.message@ == "execution start 的持久序列不连续"@
            && e.trace_id@ == trace_id@ && !e.retryable && e.diagnostics@.len() == 0),
{
    if persisted_sequence == revision {
        Ok(())
    } else {
        Err(RuleError::new(
            RuleErrorStage::Persistence,
            "execution_start_sequence_mismatch",
            "execution start 的持久序列不连续",
            trace_id,
            false,
            Vec::new(),
        ))
    }
}

} // verus!
