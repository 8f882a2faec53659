use lanjing::capture::{
    http_capture, live_capture_step, parse_js_code, quickjs_capture, replay_witness_matches, ArchivedEffectCapture, CapturedEffectOutput,
    EffectCapture, LiveCaptureAction,
};
use lanjing::effect::EffectArchiveError;
use lanjing::http_effect::HttpRequestError;
use lanjing::plan_runtime::RuntimeFailureCode;
use lanjing::scheduling::DurableCaptureReceipt;
use lanjing::effect::{
    EffectErrorCode, EffectFailure, EffectOutput, ExtractOutput, HttpEffectErrorKind, HttpResponse,
    QuickJsErrorKind, QuickJsOutput,
};
use lanjing::json::JsonValue;
use lanjing::effect::EffectInput;
use lanjing::model::{EffectKind, HttpMethod, IntentInput, PlanNode, PlanNodeKind};
use lanjing::witness::{
    quickjs_script_hash, QuickJsHostCall, EffectCaptureMaterialSensitivity, EffectWitness, EffectWitnessError, ExtractEffectWitness,
    HttpEffectWitness, HttpRequestWitness, QuickJsEffectWitness,
};

fn hash(c: char) -> String {
    c.to_string().repeat(64)
}

fn http_witness(error: Option<HttpEffectErrorKind>) -> EffectWitness {
    EffectWitness::Http(HttpEffectWitness {
        request: HttpRequestWitness {
            method: HttpMethod::Get,
            safe_url: "https://example.com/search".to_string(),
            headers: Vec::new(),
            body: None,
        },
        redirects: Vec::new(),
        dns_targets: Vec::new(),
        error,
        duration_ms: 3,
    })
}

fn quickjs_witness(output_hash: String, error: Option<QuickJsErrorKind>) -> EffectWitness {
    EffectWitness::QuickJs(QuickJsEffectWitness {
        script_hash: hash('a'),
        input_hash: hash('b'),
        output_hash,
        error,
        host_calls: Vec::new(),
        duration_ms: 1,
    })
}

fn http_output() -> EffectOutput {
    EffectOutput::Http(HttpResponse { status: 200, headers: Vec::new(), body: b"ok".to_vec(), charset: None })
}

fn js_node(code: &str) -> PlanNode {
    PlanNode {
        id: 5,
        kind: PlanNodeKind::Js,
        inputs: Vec::new(),
        outputs: Vec::new(),
        config: JsonValue::Object(vec![("code".to_string(), JsonValue::String(code.to_string()))]),
    }
}

#[test]
fn captured_pairs_must_fit() {
    assert_eq!(CapturedEffectOutput::new(http_output(), http_witness(None)).validate(None), Ok(()));
    assert_eq!(
        CapturedEffectOutput::new(http_output(), http_witness(Some(HttpEffectErrorKind::Request))).validate(None),
        Err(EffectWitnessError::KindMismatch)
    );
    assert_eq!(
        CapturedEffectOutput::new(http_output(), quickjs_witness(hash('c'), None)).validate(None),
        Err(EffectWitnessError::KindMismatch)
    );
    let failure = EffectOutput::Failure(EffectFailure::Http { error: HttpEffectErrorKind::Request });
    assert_eq!(
        CapturedEffectOutput::new(failure, http_witness(Some(HttpEffectErrorKind::Request))).validate(None),
        Ok(())
    );
    let extract = EffectOutput::Extract(ExtractOutput { records: Vec::new() });
    let extract_witness = EffectWitness::Extract(ExtractEffectWitness { input_hash: hash('d'), duration_ms: 0 });
    assert_eq!(CapturedEffectOutput::new(extract, extract_witness).validate(None), Ok(()));
}

#[test]
fn quickjs_output_hash_is_compared() {
    let out = EffectOutput::QuickJs(QuickJsOutput::Json("1".to_string()));
    let c = CapturedEffectOutput::new(out, quickjs_witness(hash('c'), None));
    assert_eq!(c.validate(Some(hash('c').as_str())), Ok(()));
    assert_eq!(c.validate(Some(&hash('e'))), Err(EffectWitnessError::QuickJsOutputHashMismatch));
    assert_eq!(c.validate(None), Err(EffectWitnessError::InvalidHash));
    let out = EffectOutput::QuickJs(QuickJsOutput::Error(QuickJsErrorKind::Timeout));
    let c = CapturedEffectOutput::new(out, quickjs_witness(hash('c'), None));
    assert_eq!(c.validate(Some(hash('c').as_str())), Err(EffectWitnessError::QuickJsOutputHashMismatch));
}

#[test]
fn request_body_only_beside_http_output() {
    let c = CapturedEffectOutput::new(http_output(), http_witness(None)).with_http_request_body(Some(b"k=v".to_vec()));
    assert_eq!(c.request_body(), Some(&b"k=v"[..]));
    assert_eq!(c.validate(None), Ok(()));
    let extract = EffectOutput::Extract(ExtractOutput { records: Vec::new() });
    let extract_witness = EffectWitness::Extract(ExtractEffectWitness { input_hash: hash('d'), duration_ms: 0 });
    let c = CapturedEffectOutput::new(extract, extract_witness).with_http_request_body(Some(b"x".to_vec()));
    assert_eq!(c.validate(None), Err(EffectWitnessError::KindMismatch));
}

#[test]
fn live_capture_needs_fingerprint_and_hashes() {
    let make = || CapturedEffectOutput::new(http_output(), http_witness(None)).with_http_request_body(Some(vec![1]));
    let cap = EffectCapture::from_live(1, 2, 3, "fp".to_string(), make(), Some(hash('1')), Some(hash('2'))).unwrap();
    assert_eq!(cap.kind, EffectKind::Http);
    assert_eq!(cap.output_hash, hash('1'));
    assert_eq!(cap.witness_hash, hash('2'));
    assert_eq!(cap.request_body(), Some(&[1u8][..]));
    assert_eq!(cap.request_body_sensitivity(), Some(EffectCaptureMaterialSensitivity::Secret));
    assert!(matches!(
        EffectCapture::from_live(1, 2, 3, "  ".to_string(), make(), Some(hash('1')), Some(hash('2'))),
        Err(EffectWitnessError::InvalidHash)
    ));
    assert!(matches!(
        EffectCapture::from_live(1, 2, 3, "fp".to_string(), make(), Some(hash('1')), None),
        Err(EffectWitnessError::InvalidHash)
    ));
}

fn archived(output_hash: &str) -> ArchivedEffectCapture {
    ArchivedEffectCapture {
        execution_id: 1,
        effect_id: 2,
        node_id: 3,
        kind: EffectKind::Http,
        fingerprint: "fp".to_string(),
        output_hash: output_hash.to_string(),
        witness_hash: hash('2'),
        output: http_output(),
        witness: http_witness(None),
    }
}

#[test]
fn archived_capture_integrity() {
    let cap = EffectCapture::from_archived(archived(&hash('1')), Some(&hash('1')), Some(&hash('2'))).unwrap();
    assert_eq!(cap.request_body(), None);
    assert_eq!(cap.request_body_sensitivity(), None);
    assert_eq!(cap.validate_replay_integrity(Some(&hash('1')), Some(&hash('2'))), Ok(()));
    assert!(matches!(
        EffectCapture::from_archived(archived(&hash('9')), Some(&hash('1')), Some(&hash('2'))),
        Err(EffectWitnessError::InvalidHash)
    ));
    assert!(matches!(
        EffectCapture::from_archived(archived(&hash('1')), Some(&hash('1')), None),
        Err(EffectWitnessError::InvalidHash)
    ));
    let mut wrong_kind = archived(&hash('1'));
    wrong_kind.kind = EffectKind::QuickJs;
    assert!(matches!(
        EffectCapture::from_archived(wrong_kind, Some(&hash('1')), Some(&hash('2'))),
        Err(EffectWitnessError::KindMismatch)
    ));
}

#[test]
fn js_code_and_replay_binding() {
    let node = js_node("return 1");
    assert_eq!(parse_js_code(&node).unwrap(), "return 1");
    let err = parse_js_code(&js_node("   ")).unwrap_err();
    assert_eq!(err.code, EffectErrorCode::Internal);
    assert_eq!(err.message, "Plan JS 配置无法读取");

    let bound = EffectWitness::QuickJs(QuickJsEffectWitness {
        script_hash: quickjs_script_hash("return 1"),
        input_hash: hash('b'),
        output_hash: hash('c'),
        error: None,
        host_calls: Vec::new(),
        duration_ms: 1,
    });
    assert!(replay_witness_matches(&node, Some(&hash('b')), &bound));
    assert!(!replay_witness_matches(&node, Some(&hash('e')), &bound));
    assert!(!replay_witness_matches(&node, None, &bound));
    assert!(!replay_witness_matches(&js_node("return 2"), Some(&hash('b')), &bound));
    assert!(replay_witness_matches(&node, None, &http_witness(None)));
    let extract_witness = EffectWitness::Extract(ExtractEffectWitness { input_hash: hash('d'), duration_ms: 0 });
    assert!(replay_witness_matches(&node, Some(&hash('d')), &extract_witness));
    assert!(!replay_witness_matches(&node, Some(&hash('b')), &extract_witness));
}

#[test]
fn effect_inputs_expose_their_source() {
    let entry = EffectInput::Intent(IntentInput::Query("q".to_string()));
    assert_eq!(entry.intent(), Some(&IntentInput::Query("q".to_string())));
    assert_eq!(entry.output(), None);
    let upstream = EffectInput::Output(http_output());
    assert_eq!(upstream.intent(), None);
    assert_eq!(upstream.output(), Some(&http_output()));
}

#[test]
fn live_capture_replays_with_the_same_hashes() {
    let captured =
        CapturedEffectOutput::new(http_output(), http_witness(None)).with_http_request_body(Some(b"k=v".to_vec()));
    let cap = EffectCapture::from_live(1, 2, 3, "fp".to_string(), captured, Some(hash('1')), Some(hash('2'))).unwrap();
    let archived = ArchivedEffectCapture {
        execution_id: cap.execution_id,
        effect_id: cap.effect_id,
        node_id: cap.node_id,
        kind: cap.kind,
        fingerprint: cap.fingerprint,
        output_hash: cap.output_hash,
        witness_hash: cap.witness_hash,
        output: cap.output,
        witness: cap.witness,
    };
    assert!(EffectCapture::from_archived(archived, Some(&hash('1')), Some(&hash('2'))).is_ok());
}

fn receipt_for(cap: &EffectCapture) -> DurableCaptureReceipt {
    DurableCaptureReceipt {
        effect_id: cap.effect_id,
        fingerprint: cap.fingerprint.clone(),
        output_hash: cap.output_hash.clone(),
        witness_hash: cap.witness_hash.clone(),
    }
}

#[test]
fn live_capture_is_stored_before_it_advances() {
    let make = || CapturedEffectOutput::new(http_output(), http_witness(None));
    let capture = EffectCapture::from_live(1, 2, 3, "fp".to_string(), make(), Some(hash('1')), Some(hash('2')));
    assert_eq!(live_capture_step(EffectKind::Http, &capture, &None), LiveCaptureAction::Persist);
    let receipt = receipt_for(capture.as_ref().unwrap());
    assert_eq!(live_capture_step(EffectKind::Http, &capture, &Some(Ok(receipt.clone()))), LiveCaptureAction::Advance);
    assert_eq!(
        live_capture_step(EffectKind::Http, &capture, &Some(Err(EffectArchiveError::new("down".to_string())))),
        LiveCaptureAction::Fail(RuntimeFailureCode::CaptureFailed, "effect durable capture 失败")
    );
    let mut other = receipt.clone();
    other.witness_hash = hash('9');
    assert_eq!(
        live_capture_step(EffectKind::Http, &capture, &Some(Ok(other))),
        LiveCaptureAction::Fail(RuntimeFailureCode::CaptureReceiptMismatch, "effect durable capture 收据不匹配")
    );
    let mut wrong_effect = receipt;
    wrong_effect.effect_id = 99;
    assert!(matches!(
        live_capture_step(EffectKind::Http, &capture, &Some(Ok(wrong_effect))),
        LiveCaptureAction::Fail(RuntimeFailureCode::CaptureReceiptMismatch, _)
    ));
}

#[test]
fn invalid_live_capture_fails_without_storing() {
    let make = || CapturedEffectOutput::new(http_output(), http_witness(None));
    let capture = EffectCapture::from_live(1, 2, 3, "fp".to_string(), make(), Some(hash('1')), Some(hash('2')));
    assert_eq!(
        live_capture_step(EffectKind::QuickJs, &capture, &None),
        LiveCaptureAction::Fail(RuntimeFailureCode::CaptureWitnessInvalid, "effect 输出类型与 Plan 声明不匹配")
    );
    let broken: Result<EffectCapture, EffectWitnessError> = Err(EffectWitnessError::InvalidHash);
    assert_eq!(
        live_capture_step(EffectKind::Http, &broken, &None),
        LiveCaptureAction::Fail(RuntimeFailureCode::CaptureWitnessInvalid, "effect witness 不符合安全完整性合同")
    );
}

#[test]
fn quickjs_capture_passes_its_own_check() {
    let calls = vec![QuickJsHostCall::Time { epoch_millis: 5 }, QuickJsHostCall::Random { value_bits: 7 }];
    let c = quickjs_capture(QuickJsOutput::Json("{}".to_string()), hash('a'), hash('b'), hash('c'), &calls, 9);
    assert_eq!(c.validate(Some(hash('c').as_str())), Ok(()));
    match &c.witness {
        EffectWitness::QuickJs(w) => {
            assert_eq!(w.error, None);
            assert_eq!(w.host_calls.iter().map(|h| h.sequence).collect::<Vec<_>>(), vec![1, 2]);
            assert_eq!(w.duration_ms, 9);
        }
        other => panic!("unexpected {other:?}"),
    }
    let failed = quickjs_capture(QuickJsOutput::Error(QuickJsErrorKind::Evaluation), hash('a'), hash('b'), hash('d'), &Vec::new(), 1);
    assert!(matches!(&failed.witness, EffectWitness::QuickJs(w) if w.error == Some(QuickJsErrorKind::Evaluation)));
    assert_eq!(failed.validate(Some(hash('d').as_str())), Ok(()));
}

#[test]
fn http_capture_pairs_output_and_witness_error() {
    let witness = match http_witness(Some(HttpEffectErrorKind::Request)) {
        EffectWitness::Http(w) => w,
        _ => unreachable!(),
    };
    let ok = http_capture(Ok(HttpResponse { status: 200, headers: Vec::new(), body: b"ok".to_vec(), charset: None }), witness.clone(), Some(vec![1])).unwrap();
    assert!(matches!(&ok.witness, EffectWitness::Http(w) if w.error.is_none()));
    assert!(matches!(ok.output, EffectOutput::Http(_)));
    assert_eq!(ok.request_body(), Some(&[1u8][..]));
    let failed = http_capture(Err(HttpRequestError::Redirect), witness.clone(), None).unwrap();
    assert_eq!(failed.output, EffectOutput::Failure(EffectFailure::Http { error: HttpEffectErrorKind::Redirect }));
    assert!(matches!(&failed.witness, EffectWitness::Http(w) if w.error == Some(HttpEffectErrorKind::Redirect)));
    let cancelled = match http_capture(Err(HttpRequestError::Cancelled), witness, None) {
        Err(e) => e,
        Ok(_) => panic!("a cancelled request is not captured"),
    };
    assert_eq!(cancelled.code, EffectErrorCode::Cancelled);
    assert_eq!(cancelled.message, "HTTP effect 已取消");
}
