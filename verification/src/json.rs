//! A JSON value as the changeset format reads it: the fields that an
//! operation carries, looked up by name.
use vstd::prelude::*;

verus! {

/// A JSON value. A number is kept as the `i64` it denotes, if any.
#[derive(Debug)]
pub enum JsonValue {
    Null,
    Bool(bool),
    Number(Option<i64>),
    Str(String),
    Array(Vec<JsonValue>),
    Object(Vec<(String, JsonValue)>),
}

/// The index of the first entry named `key`, or -1.
pub open spec fn entry_index(entries: Seq<(String, JsonValue)>, key: Seq<char>) -> int
    decreases entries.len(),
{
    if entries.len() == 0 {
        -1
    } else {
        let r = entry_index(entries.drop_last(), key);
        if r < 0 && entries.last().0@ == key {
            entries.len() - 1
        } else {
            r
        }
    }
}

/// The member `key` of an object (`Value::get`); nothing for other values.
pub open spec fn json_get(v: JsonValue, key: Seq<char>) -> Option<JsonValue> {
    match v {
        JsonValue::Object(entries) => {
            let i = entry_index(entries@, key);
            if i >= 0 {
                Some(entries@[i].1)
            } else {
                None
            }
        },
        _ => None,
    }
}

/// The member `key` when it is a string.
pub open spec fn json_str(v: JsonValue, key: Seq<char>) -> Option<Seq<char>> {
    match json_get(v, key) {
        Some(JsonValue::Str(s)) => Some(s@),
        _ => None,
    }
}

/// The member `key` when it is an array.
pub open spec fn json_array(v: JsonValue, key: Seq<char>) -> Option<Seq<JsonValue>> {
    match json_get(v, key) {
        Some(JsonValue::Array(items)) => Some(items@),
        _ => None,
    }
}

/// The member `key` when it is a number that fits an `i64`.
pub open spec fn json_i64(v: JsonValue, key: Seq<char>) -> Option<i64> {
    match json_get(v, key) {
        Some(JsonValue::Number(Some(n))) => Some(n),
        _ => None,
    }
}

pub proof fn lemma_entry_index_prefix(entries: Seq<(String, JsonValue)>, key: Seq<char>, n: int)
    requires
        0 < n <= entries.len(),
        entry_index(entries.take(n), key) == n - 1,
    ensures
        entry_index(entries, key) == n - 1,
    decreases entries.len() - n,
{
    if n < entries.len() {
        assert(entries.drop_last().take(n) == entries.take(n));
        lemma_entry_index_prefix(entries.drop_last(), key, n);
    } else {
        assert(entries.take(n) == entries);
    }
}

/// `Value::get`: the member `key` of an object.
pub fn get<'a>(v: &'a JsonValue, key: &str) -> (r: Option<&'a JsonValue>)
    ensures
        match r {
            Some(x) => json_get(*v, key@) == Some(*x),
            None => json_get(*v, key@) is None,
        },
{
    match v {
        JsonValue::Object(entries) => {
            let k: String = key.to_owned();
            let mut i: usize = 0;
            while i < entries.len()
                invariant
                    i <= entries@.len(),
                    k@ == key@,
                    *v == JsonValue::Object(*entries),
                    entry_index(entries@.take(i as int), key@) < 0,
                decreases entries@.len() - i,
            {
                assert(entries@.take(i + 1).drop_last() == entries@.take(i as int));
                if entries[i].0 == k {
                    proof {
                        assert(entries@.take(i + 1).last() == entries@[i as int]);
                        assert(entries@[i as int].0@ == key@);
                        assert(entry_index(entries@.take(i + 1), key@) == i);
                        lemma_entry_index_prefix(entries@, key@, i + 1);
                        assert(entry_index(entries@, key@) == i);
                        assert(json_get(*v, key@) == Some(entries@[i as int].1));
                    }
                    return Some(&entries[i].1);
                }
                i = i + 1;
            }
            assert(entries@.take(i as int) == entries@);
            None
        },
        _ => None,
    }
}

/// The member `key` when it is a string (`Value::as_str`).
pub fn get_str(v: &JsonValue, key: &str) -> (r: Option<String>)
    ensures
        match r {
            Some(s) => json_str(*v, key@) == Some(s@),
            None => json_str(*v, key@) is None,
        },
{
    match get(v, key) {
        Some(JsonValue::Str(s)) => Some(s.clone()),
        _ => None,
    }
}

/// The member `key` when it is an array (`Value::as_array`).
pub fn get_array<'a>(v: &'a JsonValue, key: &str) -> (r: Option<&'a Vec<JsonValue>>)
    ensures
        match r {
            Some(items) => json_array(*v, key@) == Some(items@),
            None => json_array(*v, key@) is None,
        },
{
    match get(v, key) {
        Some(JsonValue::Array(items)) => Some(items),
        _ => None,
    }
}

/// The member `key` when it is a number that fits an `i64` (`Value::as_i64`).
pub fn get_i64(v: &JsonValue, key: &str) -> (r: Option<i64>)
    ensures
        r == json_i64(*v, key@),
{
    match get(v, key) {
        Some(JsonValue::Number(n)) => *n,
        _ => None,
    }
}


// ---------------------------------------------------------------------------
// Rendering flat objects
// ---------------------------------------------------------------------------

/// The members of a flat object of texts, each key and value taken by its view.
pub open spec fn member_views(pairs: Seq<(String, String)>) -> Seq<(Seq<char>, Seq<char>)> {
    pairs.map_values(|p: (String, String)| (p.0@, p.1@))
}

/// What serde_json's `Value::to_string` renders for the object whose members
/// are the texts `pairs`, inserted in order into a `serde_json::Map` (a later
/// member with the same key replaces an earlier one; key order and escaping
/// are serde_json's).
pub uninterp spec fn json_string_object_text(pairs: Seq<(Seq<char>, Seq<char>)>) -> Seq<char>;

/// Renders the flat object `pairs` of texts with serde_json: each member is
/// inserted into a `serde_json::Map` as a `Value::String`, and the object is
/// written by `Value::to_string`. The contract ties the text to the members
/// through `json_string_object_text`; serde_json's output format is not
/// restated.
#[verifier::external_body]
pub(crate) fn render_string_object(pairs: &Vec<(String, String)>) -> (r: String)
    ensures
        r@ == json_string_object_text(member_views(pairs@)),
{
    let mut map = serde_json::Map::new();
    for (key, value) in pairs.iter() {
        map.insert(key.clone(), serde_json::Value::String(value.clone()));
    }
    serde_json::Value::Object(map).to_string()
}

/// Renders the object `{k1: v1, k2: v2}` of texts.
pub fn render_text_pair(k1: &str, v1: &str, k2: &str, v2: &str) -> (r: String)
    ensures
        r@ == json_string_object_text(seq![(k1@, v1@), (k2@, v2@)]),
{
    let mut pairs: Vec<(String, String)> = Vec::new();
    pairs.push((k1.to_owned(), v1.to_owned()));
    pairs.push((k2.to_owned(), v2.to_owned()));
    assert(member_views(pairs@) =~= seq![(k1@, v1@), (k2@, v2@)]);
    render_string_object(&pairs)
}

/// The views of texts.
pub open spec fn text_views(items: Seq<String>) -> Seq<Seq<char>> {
    items.map_values(|t: String| t@)
}

/// What serde_json's `Value::to_string` renders for the array of the texts
/// `items`, in order (escaping is serde_json's).
pub uninterp spec fn json_string_array_text(items: Seq<Seq<char>>) -> Seq<char>;

/// Renders the array of the texts `items` with serde_json: a `Value::Array`
/// of `Value::String`s, written by `Value::to_string`. The contract ties the
/// text to the items through `json_string_array_text`; serde_json's output
/// format is not restated.
#[verifier::external_body]
pub(crate) fn render_string_array(items: &Vec<String>) -> (r: String)
    ensures
        r@ == json_string_array_text(text_views(items@)),
{
    serde_json::Value::Array(items.iter().map(|item| serde_json::Value::String(item.clone())).collect()).to_string()
}

} // verus!
