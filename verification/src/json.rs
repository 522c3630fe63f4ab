//! A JSON document as plain values, with the reads that spec parsing makes:
//! field lookup and typed accessors. Reading JSON or YAML text, following a
//! JSON Pointer and writing a value's text are serde_json's and serde_yaml's
//! work, behind the trusted items at the end of this file.

use vstd::prelude::*;

use crate::text::str_eq;

verus! {

/// A JSON value. Object members keep the order in which the document was
/// read; a lookup by key finds the first member with that key.
#[derive(Debug)]
pub enum JsonValue {
    Null,
    Bool(bool),
    /// A number, held as the text that a JSON writer gives for it.
    Number(String),
    Str(String),
    Array(Vec<JsonValue>),
    Object(Vec<(String, JsonValue)>),
}

/// The value of the first member of `entries` whose key is `key`.
pub open spec fn member(entries: Seq<(String, JsonValue)>, key: Seq<char>) -> Option<JsonValue>
    decreases entries.len(),
{
    if entries.len() == 0 {
        None
    } else if entries[0].0@ == key {
        Some(entries[0].1)
    } else {
        member(entries.drop_first(), key)
    }
}

/// The member `key` of an object; `None` for every other kind of value.
pub open spec fn field(v: JsonValue, key: Seq<char>) -> Option<JsonValue> {
    match v {
        JsonValue::Object(entries) => member(entries@, key),
        _ => None,
    }
}

/// The text of a string value.
pub open spec fn str_of(v: Option<JsonValue>) -> Option<Seq<char>> {
    match v {
        Some(JsonValue::Str(s)) => Some(s@),
        _ => None,
    }
}

/// The flag of a boolean value.
pub open spec fn bool_of(v: Option<JsonValue>) -> Option<bool> {
    match v {
        Some(JsonValue::Bool(b)) => Some(b),
        _ => None,
    }
}

/// The elements of an array value.
pub open spec fn array_of(v: Option<JsonValue>) -> Option<Seq<JsonValue>> {
    match v {
        Some(JsonValue::Array(items)) => Some(items@),
        _ => None,
    }
}

/// The members of an object value.
pub open spec fn object_of(v: Option<JsonValue>) -> Option<Seq<(String, JsonValue)>> {
    match v {
        Some(JsonValue::Object(entries)) => Some(entries@),
        _ => None,
    }
}

/// The string field `key` of `v`.
pub open spec fn str_field(v: JsonValue, key: Seq<char>) -> Option<Seq<char>> {
    str_of(field(v, key))
}

/// The boolean field `key` of `v`.
pub open spec fn bool_field(v: JsonValue, key: Seq<char>) -> Option<bool> {
    bool_of(field(v, key))
}

/// The string elements of an array, in order, skipping the others.
pub open spec fn strings_in(items: Seq<JsonValue>) -> Seq<Seq<char>>
    decreases items.len(),
{
    if items.len() == 0 {
        Seq::<Seq<char>>::empty()
    } else {
        let rest = strings_in(items.drop_last());
        match items.last() {
            JsonValue::Str(s) => rest.push(s@),
            _ => rest,
        }
    }
}

// ── Executable reads ───────────────────────────────────────────────────────

impl JsonValue {
    /// The member `key` of an object; `None` for every other kind of value.
    pub fn get(&self, key: &str) -> (r: Option<&JsonValue>)
        ensures
            r is Some == field(*self, key@) is Some,
            r matches Some(x) ==> *x == field(*self, key@)->0,
    {
        match self {
            JsonValue::Object(entries) => {
                let mut i: usize = 0;
                proof {
                    assert(entries@.skip(0) =~= entries@);
                }
                while i < entries.len()
                    invariant
                        i <= entries.len(),
                        field(*self, key@) == member(entries@, key@),
                        member(entries@, key@) == member(entries@.skip(i as int), key@),
                    decreases entries.len() - i,
                {
                    proof {
                        assert(entries@.skip(i as int).drop_first() =~= entries@.skip(i + 1));
                        assert(entries@.skip(i as int)[0] == entries@[i as int]);
                    }
                    if str_eq(entries[i].0.as_str(), key) {
                        return Some(&entries[i].1);
                    }
                    i = i + 1;
                }
                None
            },
            _ => None,
        }
    }

    /// The text of a string value.
    pub fn as_str(&self) -> (r: Option<&str>)
        ensures
            r is Some == str_of(Some(*self)) is Some,
            r matches Some(x) ==> x@ == str_of(Some(*self))->0,
    {
        match self {
            JsonValue::Str(s) => Some(s.as_str()),
            _ => None,
        }
    }

    /// The flag of a boolean value.
    pub fn as_bool(&self) -> (r: Option<bool>)
        ensures
            r == bool_of(Some(*self)),
    {
        match self {
            JsonValue::Bool(b) => Some(*b),
            _ => None,
        }
    }

    /// The elements of an array value.
    pub fn as_array(&self) -> (r: Option<&Vec<JsonValue>>)
        ensures
            r is Some == array_of(Some(*self)) is Some,
            r matches Some(x) ==> x@ == array_of(Some(*self))->0,
    {
        match self {
            JsonValue::Array(items) => Some(items),
            _ => None,
        }
    }

    /// The members of an object value.
    pub fn as_object(&self) -> (r: Option<&Vec<(String, JsonValue)>>)
        ensures
            r is Some == object_of(Some(*self)) is Some,
            r matches Some(x) ==> x@ == object_of(Some(*self))->0,
    {
        match self {
            JsonValue::Object(entries) => Some(entries),
            _ => None,
        }
    }
}

/// No character that serde_json escapes inside a string: no `"`, no `\\`
/// and no control character below U+0020.
pub open spec fn plain_text(s: Seq<char>) -> bool {
    forall|i: int| 0 <= i < s.len() ==> #[trigger] s[i] != '"' && s[i] != '\\' && (s[i] as u32) >= 0x20
}

// ── serde_json and serde_yaml ─────────────────────────────────────────────

/// `serde_json::Value`, a JSON value as serde_json holds it.
#[verifier::external_type_specification]
#[verifier::external_body]
pub struct ExSerdeValue(serde_json::Value);

/// A serde_json value as a `JsonValue`, variant for variant (a number as the
/// text serde_json writes for it). The readers below hand their results over
/// through it; nothing is claimed of it on its own.
#[verifier::external_body]
fn from_serde(v: &serde_json::Value) -> JsonValue {
    match v {
        serde_json::Value::Null => JsonValue::Null,
        serde_json::Value::Bool(b) => JsonValue::Bool(*b),
        serde_json::Value::Number(n) => JsonValue::Number(n.to_string()),
        serde_json::Value::String(s) => JsonValue::Str(s.clone()),
        serde_json::Value::Array(a) => JsonValue::Array(a.iter().map(from_serde).collect()),
        serde_json::Value::Object(m) => {
            JsonValue::Object(m.iter().map(|(k, x)| (k.clone(), from_serde(x))).collect())
        },
    }
}

/// A `JsonValue` as a serde_json value, variant for variant (a number read
/// back from its text; members into serde_json's map). The calls below hand
/// their arguments over through it; nothing is claimed of it on its own.
#[verifier::external_body]
pub(crate) fn to_serde(v: &JsonValue) -> serde_json::Value {
    match v {
        JsonValue::Null => serde_json::Value::Null,
        JsonValue::Bool(b) => serde_json::Value::Bool(*b),
        JsonValue::Number(n) => n.parse().map(serde_json::Value::Number).unwrap_or(serde_json::Value::Null),
        JsonValue::Str(s) => serde_json::Value::String(s.clone()),
        JsonValue::Array(a) => serde_json::Value::Array(a.iter().map(to_serde).collect()),
        JsonValue::Object(m) => {
            serde_json::Value::Object(m.iter().map(|(k, x)| (k.clone(), to_serde(x))).collect())
        },
    }
}

/// The document that `serde_json::from_str::<Value>` reads from a text, if
/// the text is JSON.
pub uninterp spec fn json_reading(text: Seq<char>) -> Option<JsonValue>;

/// The document that `serde_yaml::from_str::<Value>` reads from a text, or
/// the text of its error.
pub uninterp spec fn yaml_reading(text: Seq<char>) -> Result<JsonValue, Seq<char>>;

/// The value that `serde_json::Value::pointer` finds for a JSON Pointer.
pub uninterp spec fn json_pointer(root: JsonValue, pointer: Seq<char>) -> Option<JsonValue>;

/// The compact text that serde_json writes for a value (`Value`'s `Display`).
pub uninterp spec fn json_compact(v: JsonValue) -> Seq<char>;

/// `serde_json::from_str::<Value>`: the document, when `text` is JSON. The
/// result is a function of the text alone.
#[verifier::external_body]
pub(crate) fn read_json(text: &str) -> (r: Option<JsonValue>)
    ensures
        r == json_reading(text@),
{
    serde_json::from_str::<serde_json::Value>(text).ok().map(|v| from_serde(&v))
}

/// `serde_yaml::from_str::<Value>`: the document, or the error's text. The
/// result is a function of the text alone.
#[verifier::external_body]
pub(crate) fn read_yaml(text: &str) -> (r: Result<JsonValue, String>)
    ensures
        match r {
            Ok(d) => yaml_reading(text@) == Ok::<JsonValue, Seq<char>>(d),
            Err(e) => yaml_reading(text@) == Err::<JsonValue, Seq<char>>(e@),
        },
{
    serde_yaml::from_str::<serde_json::Value>(text).map(|v| from_serde(&v)).map_err(|e| e.to_string())
}

/// `serde_json::Value::pointer`, cloned: the value that the JSON Pointer
/// names inside `root`. The result is a function of its arguments alone; a
/// non-empty pointer that does not start with `/` names nothing. The empty
/// pointer names the root, but the root comes back through serde_json's
/// value (members sorted by key, numbers rewritten), so that is not stated.
#[verifier::external_body]
pub(crate) fn pointer_of(root: &JsonValue, pointer: &str) -> (r: Option<JsonValue>)
    ensures
        r == json_pointer(*root, pointer@),
        pointer@.len() > 0 && pointer@[0] != '/' ==> r is None,
{
    to_serde(root).pointer(pointer).map(from_serde)
}

/// The compact text of a value, as `Value`'s `Display` writes it. A string
/// with no character to escape is written as itself in double quotes
/// (serde_json's `format_escaped_str` escapes only `"`, `\\` and control
/// characters); nothing more is stated of the text.
#[verifier::external_body]
pub(crate) fn compact_text(v: &JsonValue) -> (r: String)
    ensures
        r@ == json_compact(*v),
        match *v {
            JsonValue::Str(s) => plain_text(s@) ==> r@ == seq!['"'] + s@ + seq!['"'],
            _ => true,
        },
{
    to_serde(v).to_string()
}

} // verus!
