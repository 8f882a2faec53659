use lanjing::json::JsonValue;
use lanjing::mapper_fields::{
    discovery_target, discovery_title, id_component, item_source_key, item_title, item_url, looks_like_media_record, media_kind,
    payload_item_key, play_from, play_url, unit_locator, MediaKind,
};

fn obj(entries: Vec<(&str, &str)>) -> JsonValue {
    JsonValue::Object(entries.into_iter().map(|(k, v)| (k.to_string(), JsonValue::String(v.to_string()))).collect())
}

#[test]
fn prefers_neutral_item_url_before_source_url() {
    let value = obj(vec![
        ("source_url", "https://fallback.example"),
        ("book_url", "https://book.example"),
        ("url", "https://item.example"),
    ]);
    assert_eq!(item_url(&value).as_deref(), Some("https://item.example"));
}

#[test]
fn unit_locator_keeps_chapter_url_fallbacks() {
    let value = obj(vec![("chapterUrl", "chapter-2")]);
    assert_eq!(unit_locator(&value).as_deref(), Some("chapter-2"));
}

#[test]
fn media_kind_still_marks_maccms_records_as_video() {
    let value = obj(vec![("vod_id", "140789")]);
    assert_eq!(media_kind(&value), MediaKind::Video);
}

#[test]
fn payload_item_key_accepts_maccms_and_neutral_keys() {
    let value = obj(vec![("vodId", "42")]);
    assert_eq!(payload_item_key(&value).as_deref(), Some("42"));
}

#[test]
fn field_fallbacks_skip_blank_values_and_trim() {
    let value = obj(vec![("title", "   "), ("label", "  热门 "), ("href", "/x")]);
    assert_eq!(discovery_title(&value).as_deref(), Some("热门"));
    assert_eq!(discovery_target(&value).as_deref(), Some("/x"));
    assert_eq!(item_title(&value), None);
    assert_eq!(media_kind(&value), MediaKind::Text);
    assert!(!looks_like_media_record(&value));
    assert!(looks_like_media_record(&obj(vec![("remarks", "HD")])));
    assert_eq!(item_source_key(&obj(vec![("vodId", "7")])).as_deref(), Some("7"));
    assert_eq!(item_source_key(&obj(vec![("name", "n"), ("vodId", "7")])).as_deref(), Some("n"));
    assert_eq!(play_url(&obj(vec![("playUrl", "a$b")])).as_deref(), Some("a$b"));
    assert_eq!(play_from(&JsonValue::Null), None);
}

#[test]
fn identifier_components_escape_and_truncate() {
    assert_eq!(id_component("   "), "unknown");
    assert_eq!(id_component(" a b "), "a_20b");
    assert_eq!(id_component("0:Top-1.x_y"), "0_3aTop-1.x_y");
    assert_eq!(id_component("修"), "_e4_bf_ae");
    let long = "a".repeat(100);
    assert_eq!(id_component(&long), "a".repeat(96));
}
