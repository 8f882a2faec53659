use lanjing::credentials::{HttpCredentialsError, HttpExecutionCredentials};
use lanjing::witness::{EffectWitness, ExtractEffectWitness, QuickJsEffectWitness, QuickJsHostCall, QuickJsHostCallWitness};
use lanjing::witness_export::{effect_witness_capture_for_test, EffectWitnessForTest, QuickJsHostCallForTest};

#[test]
fn decode_headers_paths() {
    let none = HttpExecutionCredentials::from_source_secret("ns".to_string(), None);
    assert!(none.decode_headers().unwrap().iter().is_empty());
    assert_eq!(none.cookie_namespace(), "ns");

    let blank = HttpExecutionCredentials::from_source_secret(" ".to_string(), Some(b"{}".to_vec()));
    assert_eq!(blank.decode_headers().err(), Some(HttpCredentialsError::MissingCookieNamespace));

    let bad = HttpExecutionCredentials::from_source_secret("ns".to_string(), Some(b"[1]".to_vec()));
    assert_eq!(bad.decode_headers().err(), Some(HttpCredentialsError::InvalidSecretEncoding));

    let good = HttpExecutionCredentials::from_source_secret(
        "ns".to_string(),
        Some(br#"{"X-Token":"t","Cookie":"c=1"}"#.to_vec()),
    );
    let headers = good.decode_headers().unwrap();
    assert_eq!(
        headers.iter(),
        &[("Cookie".to_string(), "c=1".to_string()), ("X-Token".to_string(), "t".to_string())][..]
    );
}

#[test]
fn witness_export_keeps_fields() {
    let w = EffectWitness::QuickJs(QuickJsEffectWitness {
        script_hash: "s".to_string(),
        input_hash: "i".to_string(),
        output_hash: "o".to_string(),
        error: None,
        host_calls: vec![QuickJsHostCallWitness { sequence: 1, call: QuickJsHostCall::Random { value_bits: 9 } }],
        duration_ms: 4,
    });
    let c = effect_witness_capture_for_test("h".to_string(), &w);
    assert_eq!(c.witness_hash, "h");
    match c.witness {
        EffectWitnessForTest::QuickJs(q) => {
            assert_eq!(q.script_hash, "s");
            assert_eq!(q.host_calls[0].call, QuickJsHostCallForTest::Random { value_bits: 9 });
            assert_eq!(q.duration_ms, 4);
        }
        _ => panic!("kind changed"),
    }
    let e = effect_witness_capture_for_test(
        "h".to_string(),
        &EffectWitness::Extract(ExtractEffectWitness { input_hash: "x".to_string(), duration_ms: 1 }),
    );
    assert!(matches!(e.witness, EffectWitnessForTest::Extract(_)));
}
