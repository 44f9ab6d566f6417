//! Reading values out of JSON text with serde_json: the records that the
//! project keeps as JSON (an artifact's provenance, a clip's source video)
//! are carried as their text.

use vstd::prelude::*;
use crate::mp4::verdict::lit;
use crate::text::{decimal, decimal_string};

verus! {

/// The string value stored under `key` in the JSON object `text`, if `text`
/// parses as an object with a string there.
pub uninterp spec fn json_string_at(text: Seq<char>, key: Seq<char>) -> Option<Seq<char>>;

/// serde_json: parses `text` as a JSON value and reads the string stored
/// under `key` (`from_str`, `Value::get`, `Value::as_str`).
#[verifier::external_body]
pub(crate) fn json_string_field(text: &str, key: &str) -> (r: Option<String>)
    ensures
        match r {
            Some(s) => json_string_at(text@, key@) == Some(s@),
            None => json_string_at(text@, key@) is None,
        },
{
    let value: serde_json::Value = serde_json::from_str(text).ok()?;
    Some(value.get(key)?.as_str()?.to_string())
}

/// The compact JSON text of the value stored under `key` in the JSON object
/// `text`, if `text` parses and has that key.
pub uninterp spec fn json_value_at(text: Seq<char>, key: Seq<char>) -> Option<Seq<char>>;

/// serde_json: parses `text`, reads the value stored under `key`
/// (`Value::get`) and writes it back as compact JSON (`to_string`).
#[verifier::external_body]
pub(crate) fn json_value_field(text: &str, key: &str) -> (r: Option<String>)
    ensures
        match r {
            Some(s) => json_value_at(text@, key@) == Some(s@),
            None => json_value_at(text@, key@) is None,
        },
{
    let value: serde_json::Value = serde_json::from_str(text).ok()?;
    serde_json::to_string(value.get(key)?).ok()
}

/// The unsigned integer stored under `key` in the JSON object `text`, if
/// `text` parses and holds one there.
pub uninterp spec fn json_u64_at(text: Seq<char>, key: Seq<char>) -> Option<u64>;

/// serde_json: parses `text` and reads the unsigned integer stored under
/// `key` (`Value::get`, `Value::as_u64`).
#[verifier::external_body]
pub(crate) fn json_u64_field(text: &str, key: &str) -> (r: Option<u64>)
    ensures
        r == json_u64_at(text@, key@),
{
    let value: serde_json::Value = serde_json::from_str(text).ok()?;
    value.get(key)?.as_u64()
}

/// The text of serde_json's error for `text`, or `None` when `text` parses
/// as a JSON value.
pub uninterp spec fn json_parse_problem(text: Seq<char>) -> Option<Seq<char>>;

/// serde_json: parses `text` as a JSON value (`from_str`) and, when that
/// fails, writes the error as text (its `Display`).
#[verifier::external_body]
pub(crate) fn json_parse_failure(text: &str) -> (r: Option<String>)
    ensures
        match r {
            Some(e) => json_parse_problem(text@) == Some(e@),
            None => json_parse_problem(text@) is None,
        },
{
    match serde_json::from_str::<serde_json::Value>(text) {
        Ok(_) => None,
        Err(e) => Some(e.to_string()),
    }
}

/// A JSON value built by the library: what it writes into records and
/// hashes as ids.
pub enum JsonValue {
    Null,
    Bool(bool),
    Number(u64),
    Text(String),
    Array(Vec<JsonValue>),
    Object(Vec<(String, JsonValue)>),
}

/// The mathematical form of a `JsonValue`.
pub enum JsonView {
    Null,
    Bool(bool),
    Number(u64),
    Text(Seq<char>),
    Array(Seq<JsonView>),
    Object(Seq<(Seq<char>, JsonView)>),
}

/// The view of a JSON value.
pub open spec fn json_view(v: JsonValue) -> JsonView
    decreases v,
{
    match v {
        JsonValue::Null => JsonView::Null,
        JsonValue::Bool(b) => JsonView::Bool(b),
        JsonValue::Number(n) => JsonView::Number(n),
        JsonValue::Text(s) => JsonView::Text(s@),
        JsonValue::Array(items) => JsonView::Array(
            Seq::new(
                items@.len(),
                |i: int|
                    if 0 <= i < items@.len() {
                        json_view(items@[i])
                    } else {
                        JsonView::Null
                    },
            ),
        ),
        JsonValue::Object(fields) => JsonView::Object(
            Seq::new(
                fields@.len(),
                |i: int|
                    if 0 <= i < fields@.len() {
                        (fields@[i].0@, json_view(fields@[i].1))
                    } else {
                        (Seq::empty(), JsonView::Null)
                    },
            ),
        ),
    }
}

/// The text serde_json writes for the string `s`: quoted, with its escapes.
pub uninterp spec fn json_quoted(s: Seq<char>) -> Seq<char>;

/// serde_json: writes a string as a JSON string literal (`to_string` on a
/// `&str`).
#[verifier::external_body]
pub(crate) fn json_quote(s: &str) -> (r: String)
    ensures
        r@ == json_quoted(s@),
{
    serde_json::to_string(s).unwrap_or_default()
}

/// `items` joined by commas.
pub open spec fn comma_joined(items: Seq<Seq<char>>) -> Seq<char>
    decreases items.len(),
{
    if items.len() == 0 {
        Seq::empty()
    } else if items.len() == 1 {
        items[0]
    } else {
        comma_joined(items.drop_last()) + ","@ + items.last()
    }
}

/// The compact texts of the items of an array.
pub open spec fn array_parts(items: Seq<JsonView>) -> Seq<Seq<char>>
    decreases items,
{
    Seq::new(
        items.len(),
        |i: int|
            if 0 <= i < items.len() {
                json_compact(items[i])
            } else {
                Seq::empty()
            },
    )
}

/// The compact texts of the members of an object: `"key":value`.
pub open spec fn object_parts(fields: Seq<(Seq<char>, JsonView)>) -> Seq<Seq<char>>
    decreases fields,
{
    Seq::new(
        fields.len(),
        |i: int|
            if 0 <= i < fields.len() {
                json_quoted(fields[i].0) + ":"@ + json_compact(fields[i].1)
            } else {
                Seq::empty()
            },
    )
}

/// The compact JSON text of a value: `null`, `true`/`false`, decimal
/// numbers, quoted strings, `[a,b]` arrays and `{"k":v}` objects, with no
/// space, members in the order given (serde_json's maps are sorted, so the
/// records built here give their keys in ascending order).
pub open spec fn json_compact(v: JsonView) -> Seq<char>
    decreases v,
{
    match v {
        JsonView::Null => "null"@,
        JsonView::Bool(b) => if b {
            "true"@
        } else {
            "false"@
        },
        JsonView::Number(n) => decimal(n as nat),
        JsonView::Text(s) => json_quoted(s),
        JsonView::Array(items) => "["@ + comma_joined(array_parts(items)) + "]"@,
        JsonView::Object(fields) => "{"@ + comma_joined(object_parts(fields)) + "}"@,
    }
}

proof fn lemma_comma_joined_push(items: Seq<Seq<char>>, i: int)
    requires
        0 <= i < items.len(),
    ensures
        comma_joined(items.take(i + 1)) == if i == 0 {
            items[0]
        } else {
            comma_joined(items.take(i)) + ","@ + items[i]
        },
{
    let t = items.take(i + 1);
    assert(t.drop_last() =~= items.take(i));
    assert(t.last() == items[i]);
    if i == 0 {
        assert(t.len() == 1);
    }
}

/// Writes a value as compact JSON text.
#[verifier::spinoff_prover]
#[verifier::rlimit(40)]
pub fn json_text(v: &JsonValue) -> (r: String)
    ensures
        r@ == json_compact(json_view(*v)),
    decreases v,
{
    match v {
        JsonValue::Null => {
            assert(json_view(*v) == JsonView::Null);
            let r = lit("null");
            assert(r@ == json_compact(JsonView::Null));
            r
        },
        JsonValue::Bool(b) => {
            assert(json_view(*v) == JsonView::Bool(*b));
            if *b {
                lit("true")
            } else {
                lit("false")
            }
        },
        JsonValue::Number(n) => {
            assert(json_view(*v) == JsonView::Number(*n));
            decimal_string(*n)
        },
        JsonValue::Text(t) => {
            assert(json_view(*v) == JsonView::Text(t@));
            json_quote(t.as_str())
        },
        JsonValue::Array(items) => {
            let ghost parts = Seq::new(items@.len(), |i: int| json_compact(json_view(items@[i])));
            let mut s = lit("[");
            let mut i: usize = 0;
            while i < items.len()
                invariant
                    i <= items.len(),
                    *v == JsonValue::Array(*items),
                    parts.len() == items@.len(),
                    forall|k: int| 0 <= k < items@.len() ==> #[trigger] parts[k] == json_compact(json_view(items@[k])),
                    s@ == "["@ + comma_joined(parts.take(i as int)),
                decreases items.len() - i,
            {
                proof {
                    lemma_comma_joined_push(parts, i as int);
                }
                if i > 0 {
                    s.append(",");
                }
                proof {
                    assert(decreases_to!(*v => v->Array_0));
                    assert(decreases_to!(*items => items@));
                    assert(decreases_to!(items@ => items@[i as int]));
                }
                let t = json_text(&items[i]);
                s.append(t.as_str());
                i = i + 1;
            }
            s.append("]");
            proof {
                assert(parts.take(items@.len() as int) =~= parts);
                let w = json_view(*v);
                assert(w is Array);
                let vs = w->Array_0;
                assert(vs.len() == items@.len());
                assert(forall|k: int| 0 <= k < vs.len() ==> vs[k] == json_view(items@[k]));
                assert(array_parts(vs) =~= parts);
                assert(json_compact(w) == "["@ + comma_joined(parts) + "]"@);
            }
            assert(s@ == json_compact(json_view(*v)));
            s
        },
        JsonValue::Object(fields) => {
            let ghost parts = Seq::new(
                fields@.len(),
                |i: int| json_quoted(fields@[i].0@) + ":"@ + json_compact(json_view(fields@[i].1)),
            );
            let mut s = lit("{");
            let mut i: usize = 0;
            while i < fields.len()
                invariant
                    i <= fields.len(),
                    *v == JsonValue::Object(*fields),
                    parts.len() == fields@.len(),
                    forall|k: int| 0 <= k < fields@.len() ==> #[trigger] parts[k] == json_quoted(fields@[k].0@) + ":"@ + json_compact(json_view(fields@[k].1)),
                    s@ == "{"@ + comma_joined(parts.take(i as int)),
                decreases fields.len() - i,
            {
                proof {
                    lemma_comma_joined_push(parts, i as int);
                }
                if i > 0 {
                    s.append(",");
                }
                let k = json_quote(fields[i].0.as_str());
                s.append(k.as_str());
                s.append(":");
                proof {
                    assert(decreases_to!(*v => v->Object_0));
                    assert(decreases_to!(*fields => fields@));
                    assert(decreases_to!(fields@ => fields@[i as int]));
                    assert(decreases_to!(fields@[i as int] => fields@[i as int].1));
                }
                let t = json_text(&fields[i].1);
                s.append(t.as_str());
                i = i + 1;
            }
            s.append("}");
            proof {
                assert(parts.take(fields@.len() as int) =~= parts);
                let w = json_view(*v);
                assert(w is Object);
                let vs = w->Object_0;
                assert(vs.len() == fields@.len());
                assert(forall|k: int| 0 <= k < vs.len() ==> vs[k] == (fields@[k].0@, json_view(fields@[k].1)));
                assert(object_parts(vs) =~= parts);
                assert(json_compact(w) == "{"@ + comma_joined(parts) + "}"@);
            }
            assert(s@ == json_compact(json_view(*v)));
            s
        },
    }
}

/// What a JSON text holds at its top.
#[derive(Debug, Clone, Copy, PartialEq, Eq, Structural)]
pub enum JsonKind {
    Object,
    Null,
    Other,
}

/// What the JSON text `text` holds at its top, or `None` when it does not
/// parse.
pub uninterp spec fn json_kind_of(text: Seq<char>) -> Option<JsonKind>;

/// serde_json: parses `text` (`from_str`) and tells an object and null from
/// any other value.
#[verifier::external_body]
pub(crate) fn json_kind(text: &str) -> (r: Option<JsonKind>)
    ensures
        r == json_kind_of(text@),
        r is None <==> json_parse_problem(text@) is Some,
{
    match serde_json::from_str::<serde_json::Value>(text) {
        Ok(serde_json::Value::Object(_)) => Some(JsonKind::Object),
        Ok(serde_json::Value::Null) => Some(JsonKind::Null),
        Ok(_) => Some(JsonKind::Other),
        Err(_) => None,
    }
}

/// The pretty-printed object that `current` (an object, or null taken as
/// the empty object) becomes when each member's JSON text is put in under
/// its key, later members replacing earlier ones.
pub uninterp spec fn json_members_set(current: Seq<char>, members: Seq<(Seq<char>, Seq<char>)>) -> Seq<char>;

/// The texts of key/value pairs.
pub open spec fn member_texts(members: Seq<(String, String)>) -> Seq<(Seq<char>, Seq<char>)> {
    members.map_values(|m: (String, String)| (m.0@, m.1@))
}

/// serde_json: parses `current` (`from_str`; null starts an empty map),
/// parses each member's value text (null if it does not parse),
/// `Map::insert`s it, and writes the object with `to_string_pretty`.
#[verifier::external_body]
pub(crate) fn json_set_members(current: &str, members: &[(String, String)]) -> (r: String)
    requires
        json_kind_of(current@) == Some(JsonKind::Object) || json_kind_of(current@) == Some(JsonKind::Null),
    ensures
        r@ == json_members_set(current@, member_texts(members@)),
{
    let mut map = match serde_json::from_str::<serde_json::Value>(current) {
        Ok(serde_json::Value::Object(m)) => m,
        _ => serde_json::Map::new(),
    };
    for (k, v) in members {
        map.insert(k.clone(), serde_json::from_str(v).unwrap_or(serde_json::Value::Null));
    }
    serde_json::to_string_pretty(&serde_json::Value::Object(map)).unwrap_or_default()
}

/// The pretty-printed form of the JSON text `text`.
pub uninterp spec fn json_pretty_text(text: Seq<char>) -> Seq<char>;

/// serde_json: parses `text` (`from_str`) and writes it back with
/// `to_string_pretty`.
#[verifier::external_body]
pub(crate) fn json_pretty(text: &str) -> (r: String)
    requires
        json_kind_of(text@) is Some,
    ensures
        r@ == json_pretty_text(text@),
{
    match serde_json::from_str::<serde_json::Value>(text) {
        Ok(v) => serde_json::to_string_pretty(&v).unwrap_or_default(),
        Err(e) => e.to_string(),
    }
}

/// The compact JSON texts of the items of the array `text`, if `text`
/// parses as an array.
pub uninterp spec fn json_array_items_of(text: Seq<char>) -> Option<Seq<Seq<char>>>;

/// serde_json: parses `text` (`from_str`), takes it as an array
/// (`Value::as_array`) and writes each item back as compact JSON
/// (`to_string`).
#[verifier::external_body]
pub(crate) fn json_array_items(text: &str) -> (r: Option<Vec<String>>)
    ensures
        match r {
            Some(v) => json_array_items_of(text@) == Some(v@.map_values(|t: String| t@)),
            None => json_array_items_of(text@) is None,
        },
{
    let value: serde_json::Value = serde_json::from_str(text).ok()?;
    Some(value.as_array()?.iter().map(|item| item.to_string()).collect())
}

/// The number of members of the object `text`, if `text` parses as an
/// object.
pub uninterp spec fn json_object_len_of(text: Seq<char>) -> Option<usize>;

/// serde_json: parses `text` (`from_str`), takes it as an object
/// (`Value::as_object`) and counts its members (`Map::len`).
#[verifier::external_body]
pub(crate) fn json_object_len(text: &str) -> (r: Option<usize>)
    ensures
        r == json_object_len_of(text@),
{
    let value: serde_json::Value = serde_json::from_str(text).ok()?;
    Some(value.as_object()?.len())
}

} // verus!
