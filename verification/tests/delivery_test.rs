use lanjing::delivery::{
    catch_up_execution, check_catch_up_sequence, event_from_stored, map_stored_event, parse_timestamp, session_action, session_next,
    stream_end_error, string_payload, terminal_kind, ExecutionEventKind, ExecutionStatus, RuntimeEventTag,
    SessionAction, SessionNext,
};
use lanjing::plan_runtime::RuntimeFailureCode;
use lanjing::rule_system::RuleError;
use lanjing::json::JsonValue;
use lanjing::model::{ArtifactRef, EventEnvelope, EventType};
use lanjing::rule_system::RuleErrorStage;

fn s(text: &str) -> JsonValue {
    JsonValue::String(text.to_string())
}

fn obj(entries: Vec<(&str, JsonValue)>) -> JsonValue {
    JsonValue::Object(entries.into_iter().map(|(k, v)| (k.to_string(), v)).collect())
}

fn envelope(payload: JsonValue) -> EventEnvelope {
    EventEnvelope {
        global_seq: 42,
        stream_id: "execution/abc".to_string(),
        stream_version: 7,
        event_id: 0x3333,
        event_type: EventType::Execution,
        schema_version: 1,
        correlation_id: None,
        causation_id: None,
        trace_id: "trace-stored".to_string(),
        occurred_at: "1752796800000".to_string(),
        payload,
        artifact_refs: vec![ArtifactRef { hash: "h".to_string(), codec: "raw".to_string() }],
        secret_refs: Vec::new(),
    }
}

#[test]
fn catch_up_requires_consecutive_versions() {
    assert!(check_catch_up_sequence(4, &vec![5, 6, 7], "t").is_ok());
    assert!(check_catch_up_sequence(4, &vec![], "t").is_ok());
    let err = check_catch_up_sequence(4, &vec![5, 7], "t").unwrap_err();
    assert_eq!(err.code, "catch_up_sequence_gap");
    assert_eq!(err.stage, RuleErrorStage::Persistence);
    assert!(check_catch_up_sequence(4, &vec![4], "t").is_err());
}

#[test]
fn timestamps_parse_as_i64() {
    assert_eq!(parse_timestamp("1752796800000"), Some(1752796800000));
    assert_eq!(parse_timestamp("-12"), Some(-12));
    assert_eq!(parse_timestamp("+12"), Some(12));
    assert_eq!(parse_timestamp("9223372036854775807"), Some(i64::MAX));
    assert_eq!(parse_timestamp("-9223372036854775808"), Some(i64::MIN));
    assert_eq!(parse_timestamp("9223372036854775808"), None);
    assert_eq!(parse_timestamp("2026-07-18T00:00:00Z"), None);
    assert_eq!(parse_timestamp(""), None);
    assert_eq!(parse_timestamp("-"), None);
}

#[test]
fn terminal_statuses() {
    assert_eq!(terminal_kind(&obj(vec![("status", s("completed"))]), "t"), Ok(ExecutionEventKind::Completed));
    assert_eq!(terminal_kind(&obj(vec![("status", s("cancelled"))]), "t"), Ok(ExecutionEventKind::Cancelled));
    for status in ["failed", "incomplete"] {
        match terminal_kind(&obj(vec![("status", s(status))]), "t") {
            Ok(ExecutionEventKind::Failed { error }) => {
                assert_eq!(error.code, "execution_failed");
                assert_eq!(error.stage, RuleErrorStage::Execution);
                assert_eq!(error.trace_id, "t");
            },
            other => panic!("unexpected {other:?}"),
        }
    }
    let err = terminal_kind(&obj(vec![("status", s("paused"))]), "t").unwrap_err();
    assert_eq!(err.code, "terminal_payload_invalid");
    assert!(terminal_kind(&obj(vec![]), "t").is_err());
}

#[test]
fn string_payload_reads_strings_only() {
    let p = obj(vec![("a", s("x")), ("b", JsonValue::Bool(true))]);
    assert_eq!(string_payload(&p, "a"), Some("x".to_string()));
    assert_eq!(string_payload(&p, "b"), None);
    assert_eq!(string_payload(&p, "c"), None);
    assert_eq!(string_payload(&JsonValue::Null, "a"), None);
}

#[test]
fn stored_events_map_by_kind() {
    let ev = map_stored_event(envelope(obj(vec![("kind", s("started"))])), 9, "trace").unwrap();
    assert_eq!(ev.kind, ExecutionEventKind::Started);
    assert_eq!(ev.execution_id, 9);
    assert_eq!(ev.sequence, 7);
    assert_eq!(ev.trace_id, "trace-stored");
    assert_eq!(ev.occurred_at_ms, 1752796800000);

    let ev = map_stored_event(envelope(obj(vec![("kind", s("replay_started"))])), 9, "trace").unwrap();
    assert_eq!(ev.kind, ExecutionEventKind::Started);

    let ev = map_stored_event(envelope(obj(vec![("kind", s("diagnostic")), ("code", s("c1"))])), 9, "trace").unwrap();
    assert_eq!(
        ev.kind,
        ExecutionEventKind::Diagnostic { code: "c1".to_string(), message: "execution 诊断".to_string() }
    );

    let ev = map_stored_event(envelope(obj(vec![])), 9, "trace").unwrap();
    assert_eq!(
        ev.kind,
        ExecutionEventKind::Diagnostic {
            code: "unknown_execution_event".to_string(),
            message: "遇到未知的持久 execution event".to_string()
        }
    );

    let ev = map_stored_event(
        envelope(obj(vec![("kind", s("terminal")), ("status", s("completed"))])),
        9,
        "trace",
    )
    .unwrap();
    assert_eq!(ev.kind, ExecutionEventKind::Completed);
    let err = map_stored_event(envelope(obj(vec![("kind", s("terminal"))])), 9, "trace").unwrap_err();
    assert_eq!(err.code, "terminal_payload_invalid");
    assert_eq!(err.trace_id, "trace");
}

#[test]
fn stored_effect_capture_parses_its_uuid() {
    let payload = obj(vec![
        ("kind", s("effect_captured")),
        ("effect_id", s("44444444-4444-4444-4444-444444444444")),
        ("output_hash", s("abc")),
    ]);
    let ev = map_stored_event(envelope(payload), 9, "trace").unwrap();
    assert_eq!(
        ev.kind,
        ExecutionEventKind::EffectCaptured {
            effect_id: 0x44444444_4444_4444_4444_444444444444,
            artifact_refs: vec![ArtifactRef { hash: "h".to_string(), codec: "raw".to_string() }],
            output_hash: "abc".to_string(),
        }
    );
    let err = map_stored_event(
        envelope(obj(vec![("kind", s("effect_captured")), ("effect_id", s("not-a-uuid"))])),
        9,
        "trace",
    )
    .unwrap_err();
    assert_eq!(err.code, "effect_payload_invalid");
    assert_eq!(err.message, "持久 effect event 的 effect ID 无效");
    let err = map_stored_event(envelope(obj(vec![("kind", s("effect_captured"))])), 9, "trace").unwrap_err();
    assert_eq!(err.message, "持久 effect event 缺少 effect ID");
    let ev = event_from_stored(
        envelope(obj(vec![("kind", s("effect_captured")), ("effect_id", s("x"))])),
        9,
        "trace",
        Some(5),
    )
    .unwrap();
    assert!(matches!(ev.kind, ExecutionEventKind::EffectCaptured { effect_id: 5, .. }));
}

#[test]
fn stored_delta_and_timestamp_errors() {
    let ev = map_stored_event(envelope(obj(vec![("kind", s("delta")), ("delta", s("d"))])), 9, "trace").unwrap();
    assert_eq!(
        ev.kind,
        ExecutionEventKind::DeltaCommitted { global_revision: 42, source_revision: 7, delta: s("d") }
    );
    let err = map_stored_event(envelope(obj(vec![("kind", s("delta"))])), 9, "trace").unwrap_err();
    assert_eq!(err.code, "delta_payload_missing");

    let mut env = envelope(obj(vec![("kind", s("started"))]));
    env.occurred_at = "2026-07-18T00:00:00Z".to_string();
    let err = map_stored_event(env, 9, "trace").unwrap_err();
    assert_eq!(err.code, "event_timestamp_invalid");
    assert_eq!(err.stage, RuleErrorStage::Persistence);
    assert!(!err.retryable);
}

#[test]
fn session_reacts_to_runtime_events() {
    assert_eq!(session_action(RuntimeEventTag::Started, "t"), (SessionAction::Ignore, false));
    assert_eq!(session_action(RuntimeEventTag::EffectReplayed, "t"), (SessionAction::Ignore, false));
    assert_eq!(session_action(RuntimeEventTag::EffectCaptured, "t"), (SessionAction::FlushPersisted, false));
    assert_eq!(session_action(RuntimeEventTag::DeltaProduced, "t"), (SessionAction::CommitDelta, false));
    assert_eq!(
        session_action(RuntimeEventTag::Completed, "t"),
        (SessionAction::Finish(ExecutionStatus::Completed), true)
    );
    assert_eq!(
        session_action(RuntimeEventTag::Cancelled, "t"),
        (SessionAction::Finish(ExecutionStatus::Cancelled), true)
    );
    match session_action(RuntimeEventTag::Failed(RuntimeFailureCode::EffectFailed), "t") {
        (SessionAction::PersistFailure(e), true) => assert_eq!(e.trace_id, "t"),
        other => panic!("unexpected {other:?}"),
    }
}

#[test]
fn session_stops_after_terminal_or_error() {
    assert_eq!(session_next(Ok(()), false), SessionNext::Continue);
    assert_eq!(session_next(Ok(()), true), SessionNext::Stop);
    let e = RuleError::new(RuleErrorStage::Persistence, "c", "m", "t", false, Vec::new());
    assert_eq!(session_next(Err(e.clone()), false), SessionNext::FailRun(e));
    assert_eq!(stream_end_error(true, "t"), None);
    let e = stream_end_error(false, "t").unwrap();
    assert_eq!(e.code, "runtime_stream_ended");
    assert_eq!(e.stage, RuleErrorStage::Execution);
}

fn versioned(version: u64, payload: JsonValue) -> EventEnvelope {
    let mut env = envelope(payload);
    env.stream_version = version;
    env
}

#[test]
fn catch_up_reads_back_a_continuous_stream() {
    let stored = vec![versioned(5, obj(vec![("kind", s("started"))])), versioned(6, obj(vec![("kind", s("terminal")), ("status", s("completed"))]))];
    let events = catch_up_execution(4, stored, 0xabc, "t").unwrap();
    assert_eq!(events.len(), 2);
    assert_eq!((events[0].sequence, events[1].sequence), (5, 6));
    assert_eq!(events[0].kind, ExecutionEventKind::Started);
    assert_eq!(events[1].kind, ExecutionEventKind::Completed);
    assert_eq!(events[0].execution_id, 0xabc);
    assert!(catch_up_execution(4, Vec::new(), 0xabc, "t").unwrap().is_empty());
}

#[test]
fn catch_up_stops_at_the_first_hole_or_bad_event() {
    let gap = vec![versioned(5, obj(vec![("kind", s("started"))])), versioned(7, obj(vec![("kind", s("started"))]))];
    let err = catch_up_execution(4, gap, 1, "t").unwrap_err();
    assert_eq!(err.code, "catch_up_sequence_gap");
    // A bad event before a hole is reported first.
    let bad_first = vec![versioned(5, obj(vec![("kind", s("delta"))])), versioned(9, obj(vec![("kind", s("started"))]))];
    let err = catch_up_execution(4, bad_first, 1, "t").unwrap_err();
    assert_eq!(err.code, "delta_payload_missing");
    assert_eq!(err.trace_id, "t");
}
