use lanjing::effect::{
    EffectFailure, EffectInput, EffectOutput, ExtractOutput, HttpResponse, QuickJsErrorKind, QuickJsOutput,
};
use lanjing::json::JsonValue;
use lanjing::mapper::{mapper_input, play_entries, record_play_entries, records, MapperInput, PlayEntry};
use lanjing::model::IntentInput;

fn entry(line: &str, position: usize, title: &str, url: &str) -> PlayEntry {
    PlayEntry { line: line.to_string(), position, title: title.to_string(), url: url.to_string() }
}

#[test]
fn records_are_array_items_or_the_value() {
    let array = JsonValue::Array(vec![JsonValue::String("a".to_string()), JsonValue::Null]);
    let items = records(&array);
    assert_eq!(items.len(), 2);
    assert_eq!(items[0], &JsonValue::String("a".to_string()));
    let single = JsonValue::String("x".to_string());
    assert_eq!(records(&single), vec![&single]);
}

#[test]
fn play_fields_list_episodes_line_by_line() {
    let entries = play_entries(
        "线路1$$$线路2",
        "第1集$http://a/1.m3u8#第2集$http://a/2.m3u8$$$正片$http://b/1.m3u8",
    );
    assert_eq!(
        entries,
        vec![
            entry("线路1", 1, "第1集", "http://a/1.m3u8"),
            entry("线路1", 2, "第2集", "http://a/2.m3u8"),
            entry("线路2", 1, "正片", "http://b/1.m3u8"),
        ]
    );
}

#[test]
fn episodes_without_url_are_skipped_but_counted() {
    let entries = play_entries("", "a#b$ u #c$  ##d$x$y###");
    assert_eq!(entries, vec![entry("default", 2, "b", "u"), entry("default", 4, "d", "x$y")]);
    assert!(play_entries(" , ", "").is_empty());
    let named = play_entries(" ,B", "t$1$$$s$2###r$3");
    assert_eq!(
        named,
        vec![entry("default", 1, "t", "1"), entry("B", 1, "s", "2"), entry("default", 1, "r", "3")]
    );
}

#[test]
fn record_play_entries_need_a_play_url() {
    let record = JsonValue::Object(vec![
        ("play_from".to_string(), JsonValue::String("HD".to_string())),
        ("play_url".to_string(), JsonValue::String("E1$http://v/1".to_string())),
    ]);
    assert_eq!(record_play_entries(&record), vec![entry("HD", 1, "E1", "http://v/1")]);
    let without = JsonValue::Object(vec![("play_from".to_string(), JsonValue::String("HD".to_string()))]);
    assert!(record_play_entries(&without).is_empty());
}

#[test]
fn mapper_needs_json_or_records_upstream() {
    let json = EffectInput::Output(EffectOutput::QuickJs(QuickJsOutput::Json("[1]".to_string())));
    assert!(matches!(mapper_input(&json), Ok(MapperInput::JsonText(t)) if t == "[1]"));
    let extract = EffectInput::Output(EffectOutput::Extract(ExtractOutput { records: vec![JsonValue::Null] }));
    assert!(matches!(mapper_input(&extract), Ok(MapperInput::Records(r)) if r.len() == 1));
    assert_eq!(mapper_input(&EffectInput::Intent(IntentInput::NoInput)).unwrap_err(), "Mapper 需要 JSON 上游输出");
    let raw = EffectInput::Output(EffectOutput::QuickJs(QuickJsOutput::Raw("x".to_string())));
    assert_eq!(mapper_input(&raw).unwrap_err(), "Mapper 收到非 JSON QuickJS 输出");
    let failed = EffectInput::Output(EffectOutput::QuickJs(QuickJsOutput::Error(QuickJsErrorKind::Timeout)));
    assert_eq!(mapper_input(&failed).unwrap_err(), "Mapper 收到失败的 QuickJS 输出");
    let http = EffectInput::Output(EffectOutput::Http(HttpResponse { status: 200, headers: Vec::new(), body: Vec::new(), charset: None }));
    assert_eq!(mapper_input(&http).unwrap_err(), "Mapper 不能直接消费 HTTP 响应");
    let failure = EffectInput::Output(EffectOutput::Failure(EffectFailure::Extract));
    assert_eq!(mapper_input(&failure).unwrap_err(), "Mapper 收到失败的 effect 输出");
}
