//! Reading and writing JSON text through serde_json. Each reading names what
//! serde_json makes of the text it is handed; the library's logic composes
//! those readings and is verified against the names.

use vstd::prelude::*;

verus! {

/// The optional text's characters.
pub open spec fn text_of(o: Option<String>) -> Option<Seq<char>> {
    match o {
        Some(s) => Some(s@),
        None => None,
    }
}

/// What serde_json makes of `doc` asked for the member `key`: where `doc`
/// parses as a JSON object holding `key`, the member rendered as compact
/// JSON text, and nothing otherwise.
pub uninterp spec fn json_member_of(doc: Seq<char>, key: Seq<char>) -> Option<Seq<char>>;

/// What serde_json makes of `raw` read as a JSON string: the string's
/// characters, unescaped, where `raw` parses as one.
pub uninterp spec fn json_text_of(raw: Seq<char>) -> Option<Seq<char>>;

/// What serde_json makes of `raw` read as an unsigned count: the number,
/// where `raw` parses as a JSON number serde_json holds as an unsigned
/// integer (written without fraction or exponent, fitting 64 bits; `-0`
/// parses as a float and gives none).
pub uninterp spec fn json_count_of(raw: Seq<char>) -> Option<u64>;

/// What serde_json makes of `raw` read as a list of token identifiers: the
/// identifiers, where `raw` parses as a JSON array of integers that each fit
/// 32 unsigned bits.
pub uninterp spec fn json_tokens_of(raw: Seq<char>) -> Option<Seq<u32>>;

/// What serde_json makes of `raw` read as an array: each element rendered as
/// compact JSON text, in order, where `raw` parses as a JSON array.
pub uninterp spec fn json_items_of(raw: Seq<char>) -> Option<Seq<Seq<char>>>;

/// What serde_json makes of `raw` read as an object: each member's key and
/// compact rendering, in the map's iteration order, where `raw` parses as a
/// JSON object.
pub uninterp spec fn json_entries_of(raw: Seq<char>) -> Option<Seq<(Seq<char>, Seq<char>)>>;

/// What serde_json makes of `raw` parsed as any JSON value and rendered
/// again as compact text: the value's canonical rendering.
pub uninterp spec fn json_canonical_of(raw: Seq<char>) -> Option<Seq<char>>;

/// What serde_json makes of `bytes` parsed as any JSON value and rendered as
/// compact text, where the bytes parse as one.
pub uninterp spec fn json_bytes_canonical_of(bytes: Seq<u8>) -> Option<Seq<char>>;

/// The `Debug` rendering serde_json's `Value::get(key)` has on `doc` parsed
/// as a JSON value (`None` where `doc` does not parse or holds no `key`).
pub uninterp spec fn json_member_debug_of(doc: Seq<char>, key: Seq<char>) -> Seq<char>;

/// The compact rendering serde_json gives the JSON object whose members are
/// these keys, each mapped to its string value.
pub uninterp spec fn json_object_text_of(members: Seq<(Seq<char>, Seq<char>)>) -> Seq<char>;

/// What serde_json makes of `doc`'s member `key` held against `raw`: where
/// both parse as JSON values, whether `doc` holds `key` and that member
/// equals the value `raw` parses as, under `Value`'s `==` (numbers compared as
/// the integers or floats they parse to); false where either does not parse.
pub uninterp spec fn json_member_equals_of(doc: Seq<char>, key: Seq<char>, raw: Seq<char>) -> bool;

/// `serde_json::from_str` of both texts into values, then `Value::get(key)`
/// held against the second with `Value`'s `==`.
#[verifier::external_body]
pub(crate) fn json_member_equals(doc: &str, key: &str, raw: &str) -> (equal: bool)
    ensures
        equal == json_member_equals_of(doc@, key@, raw@),
{
    match (serde_json::from_str::<serde_json::Value>(doc), serde_json::from_str::<serde_json::Value>(raw)) {
        (Ok(value), Ok(expected)) => value.get(key) == Some(&expected),
        _ => false,
    }
}

/// `serde_json::from_str` into a value, then `Value::get(key)` rendered with
/// `to_string`.
#[verifier::external_body]
pub(crate) fn json_member(doc: &str, key: &str) -> (member: Option<String>)
    ensures
        text_of(member) == json_member_of(doc@, key@),
{
    let value: serde_json::Value = serde_json::from_str(doc).ok()?;
    Some(value.get(key)?.to_string())
}

/// `serde_json::from_str` into a `String`.
#[verifier::external_body]
pub(crate) fn json_text(raw: &str) -> (text: Option<String>)
    ensures
        text_of(text) == json_text_of(raw@),
{
    serde_json::from_str::<String>(raw).ok()
}

/// `serde_json::from_str` into a value, then `Value::as_u64`.
#[verifier::external_body]
pub(crate) fn json_count(raw: &str) -> (count: Option<u64>)
    ensures
        count == json_count_of(raw@),
{
    serde_json::from_str::<serde_json::Value>(raw).ok()?.as_u64()
}

/// `serde_json::from_str` into a `Vec<u32>`.
#[verifier::external_body]
pub(crate) fn json_tokens(raw: &str) -> (tokens: Option<Vec<u32>>)
    ensures
        match tokens {
            Some(t) => json_tokens_of(raw@) == Some(t@),
            None => json_tokens_of(raw@) is None,
        },
{
    serde_json::from_str::<Vec<u32>>(raw).ok()
}

/// `serde_json::from_str` into a value, then `Value::as_array`, each element
/// rendered with `to_string`.
#[verifier::external_body]
pub(crate) fn json_items(raw: &str) -> (items: Option<Vec<String>>)
    ensures
        match items {
            Some(v) => json_items_of(raw@) == Some(v.deep_view()),
            None => json_items_of(raw@) is None,
        },
{
    let value: serde_json::Value = serde_json::from_str(raw).ok()?;
    Some(value.as_array()?.iter().map(|item| item.to_string()).collect())
}

/// `serde_json::from_str` into a value, then `Value::as_object`, each member
/// as its key and its value rendered with `to_string`.
#[verifier::external_body]
pub(crate) fn json_entries(raw: &str) -> (entries: Option<Vec<(String, String)>>)
    ensures
        match entries {
            Some(v) => json_entries_of(raw@) == Some(v.deep_view()),
            None => json_entries_of(raw@) is None,
        },
{
    let value: serde_json::Value = serde_json::from_str(raw).ok()?;
    Some(value.as_object()?.iter().map(|(key, item)| (key.clone(), item.to_string())).collect())
}

/// `serde_json::from_str` into a value, rendered again with `to_string`.
#[verifier::external_body]
pub(crate) fn json_canonical(raw: &str) -> (canonical: Option<String>)
    ensures
        text_of(canonical) == json_canonical_of(raw@),
{
    Some(serde_json::from_str::<serde_json::Value>(raw).ok()?.to_string())
}

/// A `serde_json::Map` of string values built from `members` in order, a
/// later key replacing an earlier one, rendered as a `Value::Object` with
/// `to_string`.
#[verifier::external_body]
pub(crate) fn json_object_text(members: &Vec<(String, String)>) -> (text: String)
    ensures
        text@ == json_object_text_of(members.deep_view()),
{
    let mut map = serde_json::Map::new();
    for (key, value) in members {
        map.insert(key.clone(), serde_json::Value::String(value.clone()));
    }
    serde_json::Value::Object(map).to_string()
}

/// `serde_json::from_str` into a value, then `Value::get(key)` rendered with
/// `{:?}`.
#[verifier::external_body]
pub(crate) fn json_member_debug(doc: &str, key: &str) -> (rendered: String)
    ensures
        rendered@ == json_member_debug_of(doc@, key@),
{
    match serde_json::from_str::<serde_json::Value>(doc) {
        Ok(value) => format!("{:?}", value.get(key)),
        Err(_) => format!("{:?}", None::<&serde_json::Value>),
    }
}

/// `serde_json::from_slice` into a value, rendered again with `to_string`.
#[verifier::external_body]
pub(crate) fn json_bytes_canonical(bytes: &[u8]) -> (canonical: Option<String>)
    ensures
        text_of(canonical) == json_bytes_canonical_of(bytes@),
{
    Some(serde_json::from_slice::<serde_json::Value>(bytes).ok()?.to_string())
}

} // verus!

