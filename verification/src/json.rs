//! A JSON document model: the intermediate records that scripts, extraction and
//! persisted event payloads carry through the runtime.

use vstd::prelude::*;

use crate::text::{chars_of, trim, trim_chars, string_from_chars};

verus! {

/// A JSON number as held by the parser: an unsigned or signed integer, or the text of a
/// floating-point number.
#[derive(Debug, PartialEq, Eq)]
pub enum JsonNumber {
    /// Non-negative integer.
    PosInt(u64),
    /// Negative integer.
    NegInt(i64),
    /// Floating-point number, as its JSON text.
    Float(String),
}

/// A JSON value. Objects keep their entries in key order with unique keys.
#[derive(Debug, PartialEq, Eq)]
pub enum JsonValue {
    /// `null`.
    Null,
    /// `true` / `false`.
    Bool(bool),
    /// A number.
    Number(JsonNumber),
    /// A string.
    String(String),
    /// An array.
    Array(Vec<JsonValue>),
    /// An object, as `(key, value)` entries.
    Object(Vec<(String, JsonValue)>),
}

/// Value stored under `key` in an object (the first entry with that key); `None` for a
/// missing key or a non-object.
pub open spec fn spec_get(value: JsonValue, key: Seq<char>) -> Option<JsonValue> {
    match value {
        JsonValue::Object(entries) => entries_get(entries@, key),
        _ => None,
    }
}

/// First entry of `entries` with the given key.
pub open spec fn entries_get(entries: Seq<(String, JsonValue)>, key: Seq<char>) -> Option<JsonValue>
    decreases entries.len(),
{
    if entries.len() == 0 {
        None
    } else if entries[0].0@ == key {
        Some(entries[0].1)
    } else {
        entries_get(entries.drop_first(), key)
    }
}

/// Text of a string value.
pub open spec fn spec_as_str(value: Option<JsonValue>) -> Option<Seq<char>> {
    match value {
        Some(JsonValue::String(s)) => Some(s@),
        _ => None,
    }
}

/// Copy of a string.
pub fn copy_string(s: &String) -> (r: String)
    ensures
        r@ == s@,
{
    s.clone()
}

/// Looks up `key` in an object value.
pub fn get<'a>(value: &'a JsonValue, key: &str) -> (found: Option<&'a JsonValue>)
    ensures
        match found {
            Some(v) => spec_get(*value, key@) == Some(*v),
            None => spec_get(*value, key@) is None,
        },
{
    match value {
        JsonValue::Object(entries) => {
            let k = chars_of(key);
            let mut i: usize = 0;
            assert(entries@.skip(0) =~= entries@);
            while i < entries.len()
                invariant
                    i <= entries@.len(),
                    k@ == key@,
                    spec_get(*value, key@) == entries_get(entries@, key@),
                    entries_get(entries@, key@) == entries_get(entries@.skip(i as int), key@),
                decreases entries@.len() - i,
            {
                let name = chars_of(entries[i].0.as_str());
                if name.len() == k.len() && crate::text::matches_at(&name, &k, 0) {
                    proof {
                        assert(name@.subrange(0, k@.len() as int) =~= name@);
                        assert(entries@.skip(i as int)[0] == entries@[i as int]);
                        assert(entries@.skip(i as int).len() > 0);
                        assert(entries@.skip(i as int)[0].0@ == key@);
                        assert(entries_get(entries@.skip(i as int), key@) == Some(entries@[i as int].1));
                    }
                    return Some(&entries[i].1);
                }
                proof {
                    assert(entries@.skip(i as int)[0] == entries@[i as int]);
                    if name@ == k@ {
                        assert(name@.subrange(0, k@.len() as int) =~= name@);
                    }
                    assert(entries@.skip(i as int).drop_first() =~= entries@.skip(i + 1));
                }
                i = i + 1;
            }
            None
        },
        _ => None,
    }
}


/// First key whose value is a string that is non-empty once trimmed; that trimmed text.
pub open spec fn text_field_spec(value: JsonValue, keys: Seq<Seq<char>>) -> Option<Seq<char>>
    decreases keys.len(),
{
    if keys.len() == 0 {
        None
    } else {
        match spec_as_str(spec_get(value, keys[0])) {
            Some(s) if trim(s).len() > 0 => Some(trim(s)),
            _ => text_field_spec(value, keys.drop_first()),
        }
    }
}

/// The texts of a list of string slices.
pub open spec fn str_views(keys: Seq<&str>) -> Seq<Seq<char>> {
    keys.map_values(|k: &str| k@)
}

/// Trimmed text of the first listed key that holds a non-blank string.
pub fn text_field(value: &JsonValue, keys: &[&str]) -> (text: Option<String>)
    ensures
        match text {
            Some(t) => text_field_spec(*value, str_views(keys@)) == Some(t@),
            None => text_field_spec(*value, str_views(keys@)) is None,
        },
{
    let mut i: usize = 0;
    assert(str_views(keys@).skip(0) =~= str_views(keys@));
    while i < keys.len()
        invariant
            i <= keys@.len(),
            text_field_spec(*value, str_views(keys@)) == text_field_spec(
                *value,
                str_views(keys@).skip(i as int),
            ),
        decreases keys@.len() - i,
    {
        let ghost rest = str_views(keys@).skip(i as int);
        assert(rest[0] == keys@[i as int]@);
        assert(rest.drop_first() =~= str_views(keys@).skip(i + 1));
        match get(value, keys[i]) {
            Some(JsonValue::String(s)) => {
                let c = chars_of(s.as_str());
                let t = trim_chars(&c);
                if t.len() > 0 {
                    return Some(string_from_chars(&t));
                }
            },
            _ => {},
        }
        i = i + 1;
    }
    None
}

/// Takes the value stored under `key` out of an object value (the first entry with that
/// key); `None` for a missing key or a non-object.
pub fn take_field(value: JsonValue, key: &str) -> (found: Option<JsonValue>)
    ensures
        found == spec_get(value, key@),
{
    match value {
        JsonValue::Object(fields) => {
            let mut entries = fields;
            let ghost original = entries@;
            assert(spec_get(value, key@) == entries_get(original, key@));
            let k = chars_of(key);
            let mut i: usize = 0;
            assert(original.skip(0) =~= original);
            while i < entries.len()
                invariant
                    entries@ == original,
                    i <= original.len(),
                    k@ == key@,
                    spec_get(value, key@) == entries_get(original, key@),
                    entries_get(original, key@) == entries_get(original.skip(i as int), key@),
                decreases original.len() - i,
            {
                let name = chars_of(entries[i].0.as_str());
                proof {
                    assert(original.skip(i as int)[0] == original[i as int]);
                    assert(original.skip(i as int).drop_first() =~= original.skip(i + 1));
                }
                if crate::text::chars_eq(&name, &k) {
                    proof {
                        assert(original.skip(i as int).len() > 0);
                        assert(original.skip(i as int)[0].0@ == key@);
                    }
                    let (_, v) = entries.remove(i);
                    assert(entries_get(original.skip(i as int), key@) == Some(original[i as int].1));
                    return Some(v);
                }
                i = i + 1;
            }
            None
        },
        _ => None,
    }
}

} // verus!
