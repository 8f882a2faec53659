use lanjing::plan_runtime::{PlanRuntimeError, RuntimeFailureCode};
use lanjing::policy::{PolicyCapabilities, SystemCapabilities};
use lanjing::model::{Diagnostic, DiagnosticSeverity, ExecutionPlan, IntentEntry, StandardIntent};
use lanjing::rule_system::{
    candidate_expiry, check_archived_execution, check_install, check_replay_pin, check_intent_declared, check_replay_source_completed, check_start_sequence,
    compiler_error, duration_millis, import_error, replay_snapshot, runtime_error, ImportFailure,
    runtime_failure_error, storage_error, CapabilityGrant, CompilerErrorKind, ExecutionReplayPin, RuleError,
    RuleErrorStage, RuleSystemConfig, RuntimeExecutionMode, SourceId, StorageError,
};

#[test]
fn grants() {
    assert!(!CapabilityGrant::none().requires_network());
    assert!(CapabilityGrant::network_only().requires_network());
    let need_net = PolicyCapabilities { network: true, system: SystemCapabilities::default() };
    let need_fs = PolicyCapabilities { network: false, system: SystemCapabilities { fs: true, env: false, process: false } };
    assert!(CapabilityGrant::network_only().covers(&need_net));
    assert!(!CapabilityGrant::network_only().covers(&need_fs));
    assert!(!CapabilityGrant::none().covers(&need_net));
    assert!(CapabilityGrant::none().covers(&PolicyCapabilities::default()));
    assert_eq!(*CapabilityGrant::from_policy(need_fs).policy(), need_fs);
}

#[test]
fn storage_errors_map_to_safe_errors() {
    let e = storage_error(&StorageError::CandidateExpired, RuleErrorStage::Install, "t1");
    assert_eq!(e.stage, RuleErrorStage::Candidate);
    assert_eq!(e.code, "candidate_expired");
    assert_eq!(e.trace_id, "t1");
    assert!(!e.retryable);
    let e = storage_error(&StorageError::VersionConflict { expected: 1, actual: 2 }, RuleErrorStage::Install, "t");
    assert_eq!(e.stage, RuleErrorStage::Install);
    assert_eq!(e.code, "stream_version_conflict");
    assert!(e.retryable);
    let e = storage_error(&StorageError::Database("disk path".to_string()), RuleErrorStage::Execution, "t");
    assert_eq!(e.code, "storage_operation_failed");
    assert!(!e.message.contains("disk path"));
    let e = storage_error(&StorageError::WriterClosed, RuleErrorStage::Execution, "t");
    assert_eq!(e.stage, RuleErrorStage::Persistence);
    assert!(e.retryable);
    let e = storage_error(&StorageError::SecretUnavailable, RuleErrorStage::Execution, "t");
    assert_eq!(e.stage, RuleErrorStage::Replay);
    assert_eq!(e.code, "replay_pin_unavailable");
}

#[test]
fn runtime_failures_map_to_stages() {
    let e = runtime_failure_error(RuntimeFailureCode::CapabilityDenied, "t");
    assert_eq!(e.stage, RuleErrorStage::Capability);
    assert_eq!(e.code, "runtime_capability_denied");
    let e = runtime_failure_error(RuntimeFailureCode::ReplayWitnessMismatch, "t");
    assert_eq!(e.stage, RuleErrorStage::Replay);
    assert_eq!(e.code, "replay_witness_mismatch");
    let e = runtime_error(&PlanRuntimeError::PlanHashMismatch, "t");
    assert_eq!(e.stage, RuleErrorStage::Execution);
    assert_eq!(e.code, "plan_pin_invalid");
    let e = runtime_error(&PlanRuntimeError::MissingNode(3), "t");
    assert_eq!(e.code, "plan_invalid");
}

#[test]
fn rule_error_display_and_ttl() {
    let e = RuleError::new(RuleErrorStage::Internal, "code", "message", "t", false, Vec::new());
    assert_eq!(e.to_string(), "code: message");
    assert_eq!(duration_millis(86_400_000, "t").unwrap(), 86_400_000);
    let e = duration_millis(u128::MAX, "t").unwrap_err();
    assert_eq!(e.code, "candidate_ttl_overflow");
    assert_eq!(e.stage, RuleErrorStage::Candidate);
}

#[test]
fn config_builders() {
    let c = RuleSystemConfig::desktop("db".to_string(), "art".to_string());
    assert_eq!(c.keyring_service, "lanjing.event-store.master-key");
    assert_eq!(c.candidate_ttl_millis, 86_400_000);
    assert_eq!(c.plan_cache_capacity, 64);
    assert_eq!(c.max_concurrent_effects_per_source, 4);
    assert!(!c.local_fixture_http);
    let f = RuleSystemConfig::local_fixture("db".to_string(), "art".to_string());
    assert!(f.local_fixture_http);
    let c = c.with_keyring_service("svc".to_string()).with_candidate_ttl(5);
    assert_eq!(c.keyring_service, "svc");
    assert_eq!(c.candidate_ttl_millis, 5);
    assert_eq!(SourceId::from_identity("src".to_string()).as_identity(), "src");
}

#[test]
fn compiler_errors_keep_their_diagnostics() {
    let diagnostic = Diagnostic {
        code: "missing_field".to_string(),
        severity: DiagnosticSeverity::Error,
        message: "m".to_string(),
        span: None,
    };
    let e = compiler_error(CompilerErrorKind::Validation, vec![diagnostic.clone()], "t");
    assert_eq!(e.stage, RuleErrorStage::Validation);
    assert_eq!(e.code, "definition_validation_failed");
    assert_eq!(e.diagnostics, vec![diagnostic]);
    let e = compiler_error(CompilerErrorKind::Internal, Vec::new(), "t");
    assert_eq!(e.stage, RuleErrorStage::Internal);
    assert_eq!(e.message, "compiler 出现内部失败");
    assert_eq!(compiler_error(CompilerErrorKind::UnsupportedSelector, Vec::new(), "t").code, "selector_unsupported");
}

#[test]
fn replay_pins_must_match_the_request() {
    let pin = ExecutionReplayPin {
        source_identity: "legado:x".to_string(),
        mode: RuntimeExecutionMode::Replay { archived_execution_id: 5 },
        profile_id: "legado:x".to_string(),
        base_url: "https://example.com".to_string(),
    };
    let source = SourceId::from_identity("legado:x".to_string());
    assert_eq!(replay_snapshot(&source, 5, &pin, "t"), Ok(()));
    let other = SourceId::from_identity("legado:y".to_string());
    assert_eq!(replay_snapshot(&other, 5, &pin, "t").unwrap_err().code, "replay_source_mismatch");
    assert_eq!(replay_snapshot(&source, 6, &pin, "t").unwrap_err().code, "replay_mode_mismatch");
    let mut live = pin.clone();
    live.mode = RuntimeExecutionMode::Live;
    assert_eq!(replay_snapshot(&source, 5, &live, "t").unwrap_err().code, "replay_mode_mismatch");
    let mut blank = pin.clone();
    blank.base_url = "  ".to_string();
    let e = replay_snapshot(&source, 5, &blank, "t").unwrap_err();
    assert_eq!(e.code, "replay_source_snapshot_invalid");
    assert_eq!(e.stage, RuleErrorStage::Replay);
}

#[test]
fn candidates_expire_and_installs_are_checked() {
    assert_eq!(candidate_expiry(1_000, 500, "t"), Ok(1_500));
    assert_eq!(candidate_expiry(i64::MAX, 1, "t").unwrap_err().code, "candidate_expiry_overflow");
    let grant = CapabilityGrant::network_only();
    let need_net = PolicyCapabilities { network: true, system: SystemCapabilities::default() };
    let need_fs = PolicyCapabilities { network: false, system: SystemCapabilities { fs: true, env: false, process: false } };
    assert_eq!(check_install(true, 2_000, 1_000, &grant, &need_net, "t"), Ok(()));
    assert_eq!(check_install(false, 2_000, 1_000, &grant, &need_net, "t").unwrap_err().code, "candidate_preview_mismatch");
    assert_eq!(check_install(true, 1_000, 1_000, &grant, &need_net, "t").unwrap_err().code, "candidate_expired");
    let e = check_install(true, 2_000, 1_000, &grant, &need_fs, "t").unwrap_err();
    assert_eq!(e.code, "grant_insufficient");
    assert_eq!(e.stage, RuleErrorStage::Capability);
}

#[test]
fn execution_start_checks() {
    let plan = ExecutionPlan {
        schema_version: 1,
        compiler_version: "c".to_string(),
        definition_hash: "d".to_string(),
        plan_hash: "h".to_string(),
        nodes: Vec::new(),
        edges: Vec::new(),
        intent_entries: vec![(
            StandardIntent::Search,
            IntentEntry { intent: StandardIntent::Search, entry_node: 1, mapper_output: 2 },
        )],
        effects: Vec::new(),
        capability_requirements: Vec::new(),
    };
    assert_eq!(check_intent_declared(&plan, StandardIntent::Search, false, "t"), Ok(()));
    let e = check_intent_declared(&plan, StandardIntent::ResolveItem, false, "t").unwrap_err();
    assert_eq!((e.stage, e.code.as_str()), (RuleErrorStage::Execution, "unsupported_intent"));
    let e = check_intent_declared(&plan, StandardIntent::ResolveItem, true, "t").unwrap_err();
    assert_eq!((e.stage, e.code.as_str()), (RuleErrorStage::Replay, "unsupported_pinned_intent"));
    assert_eq!(check_replay_source_completed(true, "t"), Ok(()));
    assert_eq!(check_replay_source_completed(false, "t").unwrap_err().code, "replay_execution_not_completed");
    assert_eq!(check_start_sequence(3, 3, "t"), Ok(()));
    assert_eq!(check_start_sequence(2, 3, "t").unwrap_err().code, "execution_start_sequence_mismatch");

    let e = check_archived_execution(None, "t").unwrap_err();
    assert_eq!((e.stage, e.code.as_str(), e.message.as_str()), (RuleErrorStage::Replay, "replay_execution_missing", "历史 execution 不存在"));
    assert_eq!(check_archived_execution(Some(false), "t").unwrap_err().code, "replay_execution_not_completed");
    assert_eq!(check_archived_execution(Some(true), "t"), Ok(()));

    let pin = ExecutionReplayPin {
        source_identity: "legado:x".to_string(),
        mode: RuntimeExecutionMode::Replay { archived_execution_id: 5 },
        profile_id: "legado:x".to_string(),
        base_url: "https://example.com".to_string(),
    };
    let source = SourceId::from_identity("legado:x".to_string());
    assert_eq!(check_replay_pin(&source, 5, &pin, &plan, StandardIntent::Search, "t"), Ok(()));
    let e = check_replay_pin(&source, 5, &pin, &plan, StandardIntent::ResolveItem, "t").unwrap_err();
    assert_eq!(e.code, "unsupported_pinned_intent");
    // The pin is checked before the intent.
    let e = check_replay_pin(&source, 6, &pin, &plan, StandardIntent::ResolveItem, "t").unwrap_err();
    assert_eq!(e.code, "replay_mode_mismatch");
}

#[test]
fn import_failures_map_to_import_errors() {
    let e = import_error(ImportFailure::MaccmsDefinition, "t");
    assert_eq!((e.stage, e.code.as_str(), e.message.as_str()), (RuleErrorStage::Import, "maccms_definition_invalid", "Maccms JSON 来源输入无效"));
    assert!(!e.retryable && e.diagnostics.is_empty());
    assert_eq!(e.trace_id, "t");
    assert_eq!(import_error(ImportFailure::LegadoSourceJson, "t").code, "legado_source_invalid");
    assert_eq!(import_error(ImportFailure::LegadoDefinition, "t").code, "legado_definition_invalid");
    assert_eq!(import_error(ImportFailure::LegadoCredentials, "t").message, "Legado 静态凭证无法安全快照");
}
