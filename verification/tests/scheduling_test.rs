use lanjing::effect::{
    effect_preflight, EffectArchiveError, EffectError, EffectErrorCode, EffectFailure, EffectOutput, ExtractOutput, HttpEffectErrorKind, QuickJsErrorKind,
    QuickJsOutput,
};
use lanjing::model::{EffectDeclaration, EffectKind};
use lanjing::plan_runtime::RuntimeFailureCode;
use lanjing::policy::{PolicyCapabilities, SystemCapabilities};
use lanjing::scheduling::{
    after_effect_event, captured_output_failure, check_replay_record, failure_outcome, replay_effect_step, effect_error_outcome, enforce_capabilities, receipt_matches,
    source_media_id, DurableCaptureReceipt, EffectReplayLookup, EmitterState, ReplayRecord, RunOutcome,
};

fn caps(network: bool) -> PolicyCapabilities {
    PolicyCapabilities { network, system: SystemCapabilities { fs: false, env: false, process: false } }
}

fn decl(kind: EffectKind, required: &[&str]) -> EffectDeclaration {
    EffectDeclaration { node_id: 1, kind, required_capabilities: required.iter().map(|s| s.to_string()).collect() }
}

#[test]
fn capabilities_are_enforced_per_declaration() {
    assert_eq!(enforce_capabilities(&decl(EffectKind::Http, &["network"]), &caps(true)), Ok(()));
    assert_eq!(
        enforce_capabilities(&decl(EffectKind::Http, &[]), &caps(false)),
        Err("安装 grant 未允许 network capability")
    );
    assert_eq!(enforce_capabilities(&decl(EffectKind::Extract, &[]), &caps(false)), Ok(()));
    assert_eq!(
        enforce_capabilities(&decl(EffectKind::Extract, &["fs"]), &caps(true)),
        Err("Plan 声明了 runtime 不支持的 capability")
    );
}

#[test]
fn captured_failures_stop_the_run() {
    let http_fail = EffectOutput::Failure(EffectFailure::Http { error: HttpEffectErrorKind::Request });
    assert_eq!(captured_output_failure(&http_fail), Some("HTTP effect 执行失败"));
    let js_err = EffectOutput::QuickJs(QuickJsOutput::Error(QuickJsErrorKind::Timeout));
    assert_eq!(captured_output_failure(&js_err), Some("QuickJS effect 执行失败"));
    assert_eq!(captured_output_failure(&EffectOutput::Failure(EffectFailure::Extract)), Some("Extract effect 执行失败"));
    let ok = EffectOutput::Extract(ExtractOutput { records: Vec::new() });
    assert_eq!(captured_output_failure(&ok), None);
}

#[test]
fn receipts_must_name_the_stored_capture() {
    let r = DurableCaptureReceipt {
        effect_id: 7,
        fingerprint: "fp".to_string(),
        output_hash: "oh".to_string(),
        witness_hash: "wh".to_string(),
    };
    assert!(receipt_matches(&r, 7, "fp", "oh", "wh"));
    assert!(!receipt_matches(&r, 8, "fp", "oh", "wh"));
    assert!(!receipt_matches(&r, 7, "fp", "oh", "other"));
}

fn record() -> ReplayRecord {
    ReplayRecord {
        execution_id: 1,
        effect_id: 2,
        node_id: 3,
        kind: EffectKind::Http,
        output_kind: EffectKind::Http,
        fingerprint: "fp".to_string(),
        output_hash: "oh".to_string(),
    }
}

#[test]
fn replay_record_checks_in_order() {
    let lookup = EffectReplayLookup { archived_execution_id: 1, node_id: 3, kind: EffectKind::Http };
    assert_eq!(check_replay_record(&record(), &lookup, "fp", Some("oh"), true), Ok(()));
    let other = EffectReplayLookup { archived_execution_id: 9, node_id: 3, kind: EffectKind::Http };
    assert_eq!(
        check_replay_record(&record(), &other, "fp", Some("oh"), true),
        Err((RuntimeFailureCode::ReplayRecordMismatch, "replay effect capture 归属不匹配"))
    );
    assert_eq!(
        check_replay_record(&record(), &lookup, "changed", Some("oh"), true),
        Err((RuntimeFailureCode::ReplayFingerprintMismatch, "replay effect fingerprint 不匹配"))
    );
    assert_eq!(
        check_replay_record(&record(), &lookup, "fp", None, true),
        Err((RuntimeFailureCode::ReplayOutputHashMismatch, "replay effect 输出无法校验"))
    );
    assert_eq!(
        check_replay_record(&record(), &lookup, "fp", Some("tampered"), true),
        Err((RuntimeFailureCode::ReplayOutputHashMismatch, "replay effect 输出 hash 不匹配"))
    );
    assert_eq!(
        check_replay_record(&record(), &lookup, "fp", Some("oh"), false),
        Err((RuntimeFailureCode::ReplayWitnessMismatch, "replay effect witness 无效"))
    );
}

#[test]
fn handler_errors_end_the_run() {
    let cancelled = EffectError::new(EffectErrorCode::Cancelled, "x".to_string());
    assert_eq!(effect_error_outcome(1, "t", 2, 3, cancelled), RunOutcome::Cancelled);
    let failed = EffectError::new(EffectErrorCode::HttpRequest, "HTTP effect 执行失败".to_string());
    match effect_error_outcome(1, "t", 2, 3, failed) {
        RunOutcome::Failed(f) => {
            assert_eq!(f.code, RuntimeFailureCode::EffectFailed);
            assert_eq!(f.node_id, Some(2));
            assert_eq!(f.effect_id, Some(3));
            assert_eq!(f.message, "HTTP effect 执行失败");
        },
        other => panic!("unexpected {other:?}"),
    }
}

#[test]
fn source_media_ids_are_prefixed_once() {
    assert_eq!(source_media_id("legado:abc"), "source:legado:abc");
    assert_eq!(source_media_id("source:x"), "source:x");
}

#[test]
fn emitter_numbers_from_one_and_sends_one_terminal() {
    let mut s = EmitterState::new();
    assert_eq!(s.take_sequence(), Some(1));
    assert_eq!(s.take_sequence(), Some(2));
    assert!(s.claim_terminal());
    assert!(!s.claim_terminal());
    assert_eq!(s.take_sequence(), Some(3));
    s.receiver_dropped();
    assert_eq!(s.take_sequence(), None);
}

#[test]
fn adapters_check_cancellation_before_the_grant() {
    let cancelled = effect_preflight(EffectKind::QuickJs, true, &caps(false)).unwrap_err();
    assert_eq!(cancelled.code, EffectErrorCode::Cancelled);
    assert_eq!(cancelled.message, "QuickJS effect 已取消");
    let cancelled = effect_preflight(EffectKind::Http, true, &caps(true)).unwrap_err();
    assert_eq!(cancelled.code, EffectErrorCode::Cancelled);
    assert_eq!(cancelled.message, "HTTP effect 已取消");
    let denied = effect_preflight(EffectKind::Http, false, &caps(false)).unwrap_err();
    assert_eq!(denied.code, EffectErrorCode::CapabilityDenied);
    assert_eq!(denied.message, "安装 grant 未允许 network capability");
    assert!(effect_preflight(EffectKind::QuickJs, false, &caps(true)).is_ok());
    assert!(effect_preflight(EffectKind::Extract, false, &caps(false)).is_ok());
}

#[test]
fn outcome_after_an_effect_event() {
    let ok = EffectOutput::Extract(ExtractOutput { records: Vec::new() });
    assert!(after_effect_event(false, &ok, 1, "t", 2, 3).is_none());
    assert_eq!(after_effect_event(true, &ok, 1, "t", 2, 3), Some(RunOutcome::Cancelled));
    let failed = EffectOutput::Failure(EffectFailure::Extract);
    match after_effect_event(false, &failed, 1, "t", 2, 3) {
        Some(RunOutcome::Failed(f)) => {
            assert_eq!(f.code, RuntimeFailureCode::EffectFailed);
            assert_eq!(f.message, "Extract effect 执行失败");
            assert_eq!((f.execution_id, f.node_id, f.effect_id), (1, Some(2), Some(3)));
            assert_eq!(f.trace_id, "t");
        }
        other => panic!("unexpected {other:?}"),
    }
    match failure_outcome(7, "tr", RuntimeFailureCode::CaptureFailed, "m", None, Some(4)) {
        RunOutcome::Failed(f) => {
            assert_eq!((f.code, f.execution_id, f.node_id, f.effect_id), (RuntimeFailureCode::CaptureFailed, 7, None, Some(4)));
            assert_eq!((f.trace_id.as_str(), f.message.as_str()), ("tr", "m"));
        }
        other => panic!("unexpected {other:?}"),
    }
}

#[test]
fn replay_step_needs_a_readable_matching_record() {
    let lookup = EffectReplayLookup { archived_execution_id: 10, node_id: 20, kind: EffectKind::Http };
    let record = ReplayRecord {
        execution_id: 10,
        effect_id: 30,
        node_id: 20,
        kind: EffectKind::Http,
        output_kind: EffectKind::Http,
        fingerprint: "fp".to_string(),
        output_hash: "oh".to_string(),
    };
    let unreadable: Result<Option<ReplayRecord>, EffectArchiveError> = Err(EffectArchiveError::new("x".to_string()));
    assert_eq!(
        replay_effect_step(&lookup, &unreadable, "fp", Some("oh"), true),
        Err((RuntimeFailureCode::ReplayCaptureMissing, "replay archive 不可读取"))
    );
    assert_eq!(
        replay_effect_step(&lookup, &Ok(None), "fp", Some("oh"), true),
        Err((RuntimeFailureCode::ReplayCaptureMissing, "replay 缺少 effect capture"))
    );
    assert_eq!(replay_effect_step(&lookup, &Ok(Some(record.clone())), "fp", Some("oh"), true), Ok(()));
    assert_eq!(
        replay_effect_step(&lookup, &Ok(Some(record.clone())), "other", Some("oh"), true),
        Err((RuntimeFailureCode::ReplayFingerprintMismatch, "replay effect fingerprint 不匹配"))
    );
    assert_eq!(
        replay_effect_step(&lookup, &Ok(Some(record)), "fp", Some("oh"), false),
        Err((RuntimeFailureCode::ReplayWitnessMismatch, "replay effect witness 无效"))
    );
}
