use lanjing::effect::{EffectErrorCode, EffectInput, EffectOutput, EffectFailure, QuickJsErrorKind, QuickJsOutput};
use lanjing::model::IntentInput;
use lanjing::quickjs::{
    escape_js_string, number_host_calls, parse_page, prepare_script, quickjs_error_kind, quickjs_output,
    quickjs_template_input, random_numerator, splitmix64, JsError, JsExecution,
};
use lanjing::witness::QuickJsHostCall;

#[test]
fn escapes_js_specials() {
    assert_eq!(escape_js_string("a'b\"c\\d/e\nf\rg\th"), "a\\'b\\\"c\\\\d\\/e\\nf\\rg\\th");
    assert_eq!(escape_js_string("修罗"), "修罗");
}

#[test]
fn page_parsing_follows_u32_from_str() {
    assert_eq!(parse_page("3"), Some(3));
    assert_eq!(parse_page("+7"), Some(7));
    assert_eq!(parse_page("007"), Some(7));
    assert_eq!(parse_page("4294967295"), Some(u32::MAX));
    assert_eq!(parse_page("4294967296"), None);
    assert_eq!(parse_page("-1"), None);
    assert_eq!(parse_page("+"), None);
    assert_eq!(parse_page(""), None);
    assert_eq!(parse_page("1a"), None);
}

#[test]
fn template_inputs() {
    let page = EffectInput::Intent(IntentInput::Page("2".to_string()));
    assert_eq!(quickjs_template_input(&page), (Some(2), Some("2".to_string())));
    let bad_page = EffectInput::Intent(IntentInput::Page("x".to_string()));
    assert_eq!(quickjs_template_input(&bad_page), (None, Some("x".to_string())));
    let query = EffectInput::Intent(IntentInput::Query("q".to_string()));
    assert_eq!(quickjs_template_input(&query), (Some(1), Some("q".to_string())));
    let opaque = EffectInput::Intent(IntentInput::Opaque("{\"a\":1}".to_string()));
    assert_eq!(quickjs_template_input(&opaque), (Some(1), Some("{\"a\":1}".to_string())));
    let none = EffectInput::Intent(IntentInput::NoInput);
    assert_eq!(quickjs_template_input(&none), (Some(1), None));
    let upstream = EffectInput::Output(EffectOutput::Failure(EffectFailure::Extract));
    assert_eq!(quickjs_template_input(&upstream), (Some(1), None));
}

#[test]
fn script_preparation() {
    assert_eq!(prepare_script("p={{page}};k='{{key}}'", Some(2), Some("a'b")), "p=2;k='a\\'b'");
    assert_eq!(prepare_script("p={{page}}", None, None), "p={{page}}");
}

#[test]
fn error_kinds_and_outputs() {
    assert_eq!(quickjs_error_kind(&JsError::Timeout(5000)), QuickJsErrorKind::Timeout);
    assert_eq!(quickjs_error_kind(&JsError::CapabilityBlocked("n".into())), QuickJsErrorKind::WorkerFailure);
    assert_eq!(quickjs_error_kind(&JsError::RuntimeCreate("r".into())), QuickJsErrorKind::RuntimeInitialization);
    let w = JsExecution::worker_failure();
    assert_eq!(quickjs_output(&w), Ok(QuickJsOutput::Error(QuickJsErrorKind::WorkerFailure)));
    let ok = JsExecution { result: Ok("[1,2]".to_string()), host_calls: vec![], error_kind: None };
    assert_eq!(quickjs_output(&ok), Ok(QuickJsOutput::Json("[1,2]".to_string())));
    let raw = JsExecution { result: Ok("hello".to_string()), host_calls: vec![], error_kind: None };
    assert_eq!(quickjs_output(&raw), Ok(QuickJsOutput::Raw("hello".to_string())));
    let cancelled = JsExecution { result: Err(JsError::Cancelled), host_calls: vec![], error_kind: None };
    assert_eq!(quickjs_output(&cancelled).unwrap_err().code, EffectErrorCode::Cancelled);
    let eval = JsExecution { result: Err(JsError::EvalError("x".into())), host_calls: vec![], error_kind: None };
    assert_eq!(quickjs_output(&eval), Ok(QuickJsOutput::Error(QuickJsErrorKind::Evaluation)));
}

#[test]
fn host_calls_are_numbered_from_one() {
    let calls = vec![QuickJsHostCall::Time { epoch_millis: 1 }, QuickJsHostCall::Random { value_bits: 2 }];
    let w = number_host_calls(&calls);
    assert_eq!(w.len(), 2);
    assert_eq!(w[0].sequence, 1);
    assert_eq!(w[1].sequence, 2);
    assert_eq!(w[1].call, QuickJsHostCall::Random { value_bits: 2 });
}

#[test]
fn splitmix_known_values() {
    assert_eq!(splitmix64(0), 0xe220a8397b1dcdaf);
    assert_eq!(splitmix64(0x9e37_79b9_7f4a_7c15), 0x6e789e6aa1b965f4);
}

#[test]
fn random_bits_mix_time_and_counter() {
    assert_eq!(random_numerator(0, 0), splitmix64(0) >> 11);
    assert_eq!(random_numerator(5, 1), splitmix64(5 ^ (1u64 << 17)) >> 11);
    assert_eq!(random_numerator(7, 1u64 << 63), splitmix64(7 ^ (1u64 << 16)) >> 11);
    assert!(random_numerator(u64::MAX, u64::MAX) < (1u64 << 53));
}
