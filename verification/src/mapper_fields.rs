//! Field fallbacks of the controlled mapper: which keys of an intermediate record give a
//! title, a URL, a locator and the like, tried in order.

use vstd::prelude::*;

use crate::json::{str_views, text_field, text_field_spec, JsonValue};
use crate::text::{chars_of, string_from_chars, to_owned_string, trim, trim_chars};
use vstd::string::StrSliceExecFns;
use vstd::utf8::encode_utf8;

verus! {

/// Text of an optional string.
pub open spec fn text_of(s: Option<String>) -> Option<Seq<char>> {
    match s {
        Some(t) => Some(t@),
        None => None,
    }
}

/// The kind of media a record is classified as.
#[derive(Debug, Clone, Copy, PartialEq, Eq, Structural)]
pub enum MediaKind {
    /// Text, such as a book or an article.
    Text,
    /// Video, such as a film or an episode.
    Video,
}

/// Candidate keys: title of a discovery section or action.
pub open spec fn discovery_title_keys() -> Seq<Seq<char>> {
    seq!["title"@, "label"@, "name"@]
}

/// Title of a discovery section or action: the first of its candidate keys holding a non-blank string, trimmed.
pub fn discovery_title(value: &JsonValue) -> (r: Option<String>)
    ensures
        text_of(r) == text_field_spec(*value, discovery_title_keys()),
{
    let keys: [&str; 3] = ["title", "label", "name"];
    proof {
        assert(str_views(keys@) =~= discovery_title_keys());
    }
    text_field(value, keys.as_slice())
}

/// Candidate keys: target of a discovery action.
pub open spec fn discovery_target_keys() -> Seq<Seq<char>> {
    seq!["url"@, "href"@, "key"@]
}

/// Target of a discovery action: the first of its candidate keys holding a non-blank string, trimmed.
pub fn discovery_target(value: &JsonValue) -> (r: Option<String>)
    ensures
        text_of(r) == text_field_spec(*value, discovery_target_keys()),
{
    let keys: [&str; 3] = ["url", "href", "key"];
    proof {
        assert(str_views(keys@) =~= discovery_target_keys());
    }
    text_field(value, keys.as_slice())
}

/// Candidate keys: url of a media item.
pub open spec fn item_url_keys() -> Seq<Seq<char>> {
    seq!["url"@, "book_url"@, "source_url"@]
}

/// URL of a media item: the first of its candidate keys holding a non-blank string, trimmed.
pub fn item_url(value: &JsonValue) -> (r: Option<String>)
    ensures
        text_of(r) == text_field_spec(*value, item_url_keys()),
{
    let keys: [&str; 3] = ["url", "book_url", "source_url"];
    proof {
        assert(str_views(keys@) =~= item_url_keys());
    }
    text_field(value, keys.as_slice())
}

/// Candidate keys: creator of a media item.
pub open spec fn item_creators_keys() -> Seq<Seq<char>> {
    seq!["author"@, "creator"@]
}

/// Creator of a media item: the first of its candidate keys holding a non-blank string, trimmed.
pub fn item_creators(value: &JsonValue) -> (r: Option<String>)
    ensures
        text_of(r) == text_field_spec(*value, item_creators_keys()),
{
    let keys: [&str; 2] = ["author", "creator"];
    proof {
        assert(str_views(keys@) =~= item_creators_keys());
    }
    text_field(value, keys.as_slice())
}

/// Candidate keys: cover of a media item.
pub open spec fn item_cover_keys() -> Seq<Seq<char>> {
    seq!["cover_url"@, "cover"@]
}

/// Cover of a media item: the first of its candidate keys holding a non-blank string, trimmed.
pub fn item_cover(value: &JsonValue) -> (r: Option<String>)
    ensures
        text_of(r) == text_field_spec(*value, item_cover_keys()),
{
    let keys: [&str; 2] = ["cover_url", "cover"];
    proof {
        assert(str_views(keys@) =~= item_cover_keys());
    }
    text_field(value, keys.as_slice())
}

/// Candidate keys: title of a media item.
pub open spec fn item_title_keys() -> Seq<Seq<char>> {
    seq!["title"@, "name"@]
}

/// Title of a media item: the first of its candidate keys holding a non-blank string, trimmed.
pub fn item_title(value: &JsonValue) -> (r: Option<String>)
    ensures
        text_of(r) == text_field_spec(*value, item_title_keys()),
{
    let keys: [&str; 2] = ["title", "name"];
    proof {
        assert(str_views(keys@) =~= item_title_keys());
    }
    text_field(value, keys.as_slice())
}

/// Candidate keys: description of a media item.
pub open spec fn item_description_keys() -> Seq<Seq<char>> {
    seq!["description"@, "intro"@]
}

/// Description of a media item: the first of its candidate keys holding a non-blank string, trimmed.
pub fn item_description(value: &JsonValue) -> (r: Option<String>)
    ensures
        text_of(r) == text_field_spec(*value, item_description_keys()),
{
    let keys: [&str; 2] = ["description", "intro"];
    proof {
        assert(str_views(keys@) =~= item_description_keys());
    }
    text_field(value, keys.as_slice())
}

/// Candidate keys: title of a consumption unit.
pub open spec fn unit_title_keys() -> Seq<Seq<char>> {
    seq!["title"@, "name"@]
}

/// Title of a consumption unit: the first of its candidate keys holding a non-blank string, trimmed.
pub fn unit_title(value: &JsonValue) -> (r: Option<String>)
    ensures
        text_of(r) == text_field_spec(*value, unit_title_keys()),
{
    let keys: [&str; 2] = ["title", "name"];
    proof {
        assert(str_views(keys@) =~= unit_title_keys());
    }
    text_field(value, keys.as_slice())
}

/// Candidate keys: locator of a consumption unit.
pub open spec fn unit_locator_keys() -> Seq<Seq<char>> {
    seq!["source_unit_id"@, "chapter_url"@, "chapterUrl"@, "url"@, "href"@]
}

/// Locator of a consumption unit: the first of its candidate keys holding a non-blank string, trimmed.
pub fn unit_locator(value: &JsonValue) -> (r: Option<String>)
    ensures
        text_of(r) == text_field_spec(*value, unit_locator_keys()),
{
    let keys: [&str; 5] = ["source_unit_id", "chapter_url", "chapterUrl", "url", "href"];
    proof {
        assert(str_views(keys@) =~= unit_locator_keys());
    }
    text_field(value, keys.as_slice())
}

/// Candidate keys: text content of an asset.
pub open spec fn asset_content_keys() -> Seq<Seq<char>> {
    seq!["content"@, "text"@, "title"@]
}

/// Text content of an asset: the first of its candidate keys holding a non-blank string, trimmed.
pub fn asset_content(value: &JsonValue) -> (r: Option<String>)
    ensures
        text_of(r) == text_field_spec(*value, asset_content_keys()),
{
    let keys: [&str; 3] = ["content", "text", "title"];
    proof {
        assert(str_views(keys@) =~= asset_content_keys());
    }
    text_field(value, keys.as_slice())
}

/// Candidate keys: url of an asset.
pub open spec fn asset_url_keys() -> Seq<Seq<char>> {
    seq!["url"@, "href"@]
}

/// URL of an asset: the first of its candidate keys holding a non-blank string, trimmed.
pub fn asset_url(value: &JsonValue) -> (r: Option<String>)
    ensures
        text_of(r) == text_field_spec(*value, asset_url_keys()),
{
    let keys: [&str; 2] = ["url", "href"];
    proof {
        assert(str_views(keys@) =~= asset_url_keys());
    }
    text_field(value, keys.as_slice())
}

/// Candidate keys: play address list of a video record.
pub open spec fn play_url_keys() -> Seq<Seq<char>> {
    seq!["play_url"@, "playUrl"@]
}

/// Play address list of a video record: the first of its candidate keys holding a non-blank string, trimmed.
pub fn play_url(value: &JsonValue) -> (r: Option<String>)
    ensures
        text_of(r) == text_field_spec(*value, play_url_keys()),
{
    let keys: [&str; 2] = ["play_url", "playUrl"];
    proof {
        assert(str_views(keys@) =~= play_url_keys());
    }
    text_field(value, keys.as_slice())
}

/// Candidate keys: play line names of a video record.
pub open spec fn play_from_keys() -> Seq<Seq<char>> {
    seq!["play_from"@, "playFrom"@]
}

/// Play line names of a video record: the first of its candidate keys holding a non-blank string, trimmed.
pub fn play_from(value: &JsonValue) -> (r: Option<String>)
    ensures
        text_of(r) == text_field_spec(*value, play_from_keys()),
{
    let keys: [&str; 2] = ["play_from", "playFrom"];
    proof {
        assert(str_views(keys@) =~= play_from_keys());
    }
    text_field(value, keys.as_slice())
}

/// Candidate keys: item key carried by an action payload.
pub open spec fn payload_item_key_keys() -> Seq<Seq<char>> {
    seq!["vod_id"@, "vodId"@, "source_item_id"@, "id"@, "url"@, "book_url"@]
}

/// Item key carried by an action payload: the first of its candidate keys holding a non-blank string, trimmed.
pub fn payload_item_key(value: &JsonValue) -> (r: Option<String>)
    ensures
        text_of(r) == text_field_spec(*value, payload_item_key_keys()),
{
    let keys: [&str; 6] = ["vod_id", "vodId", "source_item_id", "id", "url", "book_url"];
    proof {
        assert(str_views(keys@) =~= payload_item_key_keys());
    }
    text_field(value, keys.as_slice())
}

/// Keys whose presence marks a record as a media item.
pub open spec fn media_record_keys() -> Seq<Seq<char>> {
    seq!["source_item_id"@, "cover_url"@, "cover"@, "author"@, "description"@, "remarks"@]
}

/// A record looks like a media item when one of the media keys holds a non-blank string.
pub fn looks_like_media_record(value: &JsonValue) -> (b: bool)
    ensures
        b == text_field_spec(*value, media_record_keys()) is Some,
{
    let keys: [&str; 6] = ["source_item_id", "cover_url", "cover", "author", "description", "remarks"];
    proof {
        assert(str_views(keys@) =~= media_record_keys());
    }
    text_field(value, keys.as_slice()).is_some()
}

/// Keys whose presence marks a record as video.
pub open spec fn video_hint_keys() -> Seq<Seq<char>> {
    seq!["play_url"@, "playUrl"@, "source_item_id"@, "vod_id"@, "vodId"@]
}

/// A record is video when one of the video keys holds a non-blank string; text otherwise.
pub fn media_kind(value: &JsonValue) -> (k: MediaKind)
    ensures
        k == (if text_field_spec(*value, video_hint_keys()) is Some {
            MediaKind::Video
        } else {
            MediaKind::Text
        }),
{
    let keys: [&str; 5] = ["play_url", "playUrl", "source_item_id", "vod_id", "vodId"];
    proof {
        assert(str_views(keys@) =~= video_hint_keys());
    }
    if text_field(value, keys.as_slice()).is_some() {
        MediaKind::Video
    } else {
        MediaKind::Text
    }
}

/// Keys of a media item's source-local key, neutral ones first.
pub open spec fn item_source_key_keys() -> Seq<Seq<char>> {
    seq!["source_item_id"@, "url"@, "book_url"@, "title"@, "name"@]
}

/// Keys of a media item's source-local key that video sites use.
pub open spec fn item_source_key_ext_keys() -> Seq<Seq<char>> {
    seq!["vod_id"@, "vodId"@]
}

/// Source-local key of a media item: from the neutral keys, or else from the video-site
/// keys.
pub fn item_source_key(value: &JsonValue) -> (r: Option<String>)
    ensures
        text_of(r) == (match text_field_spec(*value, item_source_key_keys()) {
            Some(t) => Some(t),
            None => text_field_spec(*value, item_source_key_ext_keys()),
        }),
{
    let keys: [&str; 5] = ["source_item_id", "url", "book_url", "title", "name"];
    let ext: [&str; 2] = ["vod_id", "vodId"];
    proof {
        assert(str_views(keys@) =~= item_source_key_keys());
        assert(str_views(ext@) =~= item_source_key_ext_keys());
    }
    match text_field(value, keys.as_slice()) {
        Some(k) => Some(k),
        None => text_field(value, ext.as_slice()),
    }
}


/// A byte kept as it is in an identifier component: an ASCII letter or digit, `-`, `_` or
/// `.`.
pub open spec fn is_id_byte(b: u8) -> bool {
    (65 <= b <= 90) || (97 <= b <= 122) || (48 <= b <= 57) || b == 45 || b == 95 || b == 46
}

/// The lowercase hexadecimal digits.
pub open spec fn hex_digits() -> Seq<char> {
    seq!['0', '1', '2', '3', '4', '5', '6', '7', '8', '9', 'a', 'b', 'c', 'd', 'e', 'f']
}

/// How one byte is written in an identifier component: kept, or `_` and two hex digits.
pub open spec fn id_byte_text(b: u8) -> Seq<char> {
    if is_id_byte(b) {
        seq![b as char]
    } else {
        seq!['_', hex_digits()[(b / 16) as int], hex_digits()[(b % 16) as int]]
    }
}

/// The bytes written one after the other.
pub open spec fn id_bytes_text(bytes: Seq<u8>) -> Seq<char>
    decreases bytes.len(),
{
    if bytes.len() == 0 {
        Seq::empty()
    } else {
        id_bytes_text(bytes.drop_last()) + id_byte_text(bytes.last())
    }
}

/// An identifier component for a raw text: the first 96 bytes of the trimmed text, each
/// kept or escaped; `unknown` for a blank text.
pub open spec fn id_component_text(raw: Seq<char>) -> Seq<char> {
    let t = trim(raw);
    if t.len() == 0 {
        "unknown"@
    } else {
        let bytes = encode_utf8(t);
        let out = id_bytes_text(bytes.take(if bytes.len() < 96 { bytes.len() as int } else { 96 }));
        if out.len() == 0 {
            "unknown"@
        } else {
            out
        }
    }
}

/// Turns a raw text into a safe identifier component.
pub fn id_component(raw: &str) -> (r: String)
    ensures
        r@ == id_component_text(raw@),
{
    let t = trim_chars(&chars_of(raw));
    if t.len() == 0 {
        return to_owned_string("unknown");
    }
    let trimmed = string_from_chars(&t);
    let bytes = trimmed.as_str().as_bytes_vec();
    let n: usize = if bytes.len() < 96 { bytes.len() } else { 96 };
    let digits: [char; 16] = ['0', '1', '2', '3', '4', '5', '6', '7', '8', '9', 'a', 'b', 'c', 'd', 'e', 'f'];
    proof {
        assert(digits@ =~= hex_digits());
        assert(bytes@.take(0) =~= Seq::<u8>::empty());
    }
    let mut out: Vec<char> = Vec::new();
    let mut i: usize = 0;
    while i < n
        invariant
            i <= n <= bytes@.len(),
            digits@ == hex_digits(),
            out@ == id_bytes_text(bytes@.take(i as int)),
        decreases n - i,
    {
        let b = bytes[i];
        proof {
            assert(bytes@.take(i + 1).drop_last() =~= bytes@.take(i as int));
            assert(bytes@.take(i + 1).last() == b);
        }
        if (65 <= b && b <= 90) || (97 <= b && b <= 122) || (48 <= b && b <= 57) || b == 45 || b == 95 || b == 46 {
            out.push(b as char);
        } else {
            out.push('_');
            out.push(digits[(b / 16) as usize]);
            out.push(digits[(b % 16) as usize]);
        }
        proof {
            assert(out@ =~= id_bytes_text(bytes@.take(i as int)) + id_byte_text(b));
        }
        i = i + 1;
    }
    if out.len() == 0 {
        return to_owned_string("unknown");
    }
    string_from_chars(&out)
}

} // verus!
