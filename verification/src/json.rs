//! A model of parsed JSON documents, parsing text into it with
//! `serde_json`, and the accessors the library reads it with. The accessors
//! behave as `serde_json::Value`'s do: indexing a missing key or a
//! non-object gives nothing, numbers are read as `i64` only when they fit,
//! and so on.

use vstd::prelude::*;
use serde_json::Value;
use crate::text::str_eq;

verus! {

/// A parsed JSON value. Numbers keep the distinction `serde_json` makes:
/// non-negative integers, negative integers, and other numbers.
#[derive(Debug)]
pub enum JsonValue {
    Null,
    Bool(bool),
    PosInt(u64),
    NegInt(i64),
    Float,
    Str(String),
    Array(Vec<JsonValue>),
    /// Members, in the order the parser's map gives them (`serde_json`
    /// sorts them by key); parsed objects have distinct keys (see
    /// [`well_keyed`]).
    Object(Vec<(String, JsonValue)>),
}

/// Whether no two members share a key.
pub open spec fn keys_distinct(entries: Seq<(String, JsonValue)>) -> bool {
    forall|i: int, j: int| 0 <= i < j < entries.len() ==> entries[i].0@ != entries[j].0@
}

/// Whether every object in a value, at any depth, has distinct keys.
pub open spec fn well_keyed(v: JsonValue) -> bool
    decreases v,
{
    match v {
        JsonValue::Array(items) => forall|i: int|
            0 <= i < items@.len() ==> well_keyed(#[trigger] items@[i]),
        JsonValue::Object(entries) => keys_distinct(entries@) && forall|i: int|
            0 <= i < entries@.len() ==> well_keyed(#[trigger] entries@[i].1),
        _ => true,
    }
}

#[verifier::external_type_specification]
#[verifier::external_body]
pub struct ExJsonDocument(Value);

/// What `serde_json::from_str::<Value>` gives for a text, in this model:
/// the document, or nothing where the text is not JSON.
pub uninterp spec fn json_of(text: Seq<char>) -> Option<JsonValue>;

/// What `serde_json::from_slice::<Value>` gives for bytes, in this model:
/// the document, or nothing where the bytes are not UTF-8 JSON.
pub uninterp spec fn json_of_bytes(bytes: Seq<u8>) -> Option<JsonValue>;

/// A `serde_json::Value` in this model, variant by variant: a number is
/// `PosInt` where `as_u64` reads it, else `NegInt` where `as_i64` does,
/// else `Float`.
#[verifier::external_body]
fn model_of_value(v: &Value) -> JsonValue {
    match v {
        Value::Null => JsonValue::Null,
        Value::Bool(b) => JsonValue::Bool(*b),
        Value::Number(n) => match (n.as_u64(), n.as_i64()) {
            (Some(u), _) => JsonValue::PosInt(u),
            (None, Some(i)) => JsonValue::NegInt(i),
            (None, None) => JsonValue::Float,
        },
        Value::String(s) => JsonValue::Str(s.clone()),
        Value::Array(items) => JsonValue::Array(items.iter().map(model_of_value).collect()),
        Value::Object(m) => JsonValue::Object(m.iter().map(|(k, x)| (k.clone(), model_of_value(x))).collect()),
    }
}

/// `serde_json::from_str::<Value>`. Trusted: the result is the parsed
/// document, or nothing where the text is not JSON, a function of the text
/// alone; `serde_json`'s map keeps one member per key.
#[verifier::external_body]
pub(crate) fn parse_json(text: &str) -> (r: Option<JsonValue>)
    ensures
        r == json_of(text@),
        r matches Some(v) ==> well_keyed(v),
{
    match serde_json::from_str::<Value>(text) {
        Ok(v) => Some(model_of_value(&v)),
        Err(_) => None,
    }
}

/// `serde_json::from_slice::<Value>`. Trusted: the result is the parsed
/// document, or nothing where the bytes are not UTF-8 JSON, a function of
/// the bytes alone; `serde_json`'s map keeps one member per key.
#[verifier::external_body]
pub(crate) fn parse_json_bytes(bytes: &[u8]) -> (r: Option<JsonValue>)
    ensures
        r == json_of_bytes(bytes@),
        r matches Some(v) ==> well_keyed(v),
{
    match serde_json::from_slice::<Value>(bytes) {
        Ok(v) => Some(model_of_value(&v)),
        Err(_) => None,
    }
}

/// A possibly absent borrowed value, as a value.
pub open spec fn opt(v: Option<&JsonValue>) -> Option<JsonValue> {
    match v {
        Some(x) => Some(*x),
        None => None,
    }
}

/// The value of the first member named `k`.
pub open spec fn lookup(entries: Seq<(String, JsonValue)>, k: Seq<char>) -> Option<JsonValue>
    decreases entries.len(),
{
    if entries.len() == 0 {
        None
    } else if entries[0].0@ == k {
        Some(entries[0].1)
    } else {
        lookup(entries.drop_first(), k)
    }
}

/// `Value::get(key)`: the member named `k` of an object.
pub open spec fn get_key(v: JsonValue, k: Seq<char>) -> Option<JsonValue> {
    match v {
        JsonValue::Object(entries) => lookup(entries@, k),
        _ => None,
    }
}

/// `Value::get(i)`: element `i` of an array.
pub open spec fn get_index(v: JsonValue, i: int) -> Option<JsonValue> {
    match v {
        JsonValue::Array(items) => if 0 <= i < items@.len() {
            Some(items@[i])
        } else {
            None
        },
        _ => None,
    }
}

/// `value[key]` where `value` may itself be absent (`Null`).
pub open spec fn member_of(v: Option<JsonValue>, k: Seq<char>) -> Option<JsonValue> {
    match v {
        Some(x) => get_key(x, k),
        None => None,
    }
}

/// `Value::as_i64`.
pub open spec fn as_i64(v: Option<JsonValue>) -> Option<i64> {
    match v {
        Some(JsonValue::PosInt(n)) => if n <= i64::MAX {
            Some(n as i64)
        } else {
            None
        },
        Some(JsonValue::NegInt(n)) => Some(n),
        _ => None,
    }
}

/// `Value::as_u64`.
pub open spec fn as_u64(v: Option<JsonValue>) -> Option<u64> {
    match v {
        Some(JsonValue::PosInt(n)) => Some(n),
        _ => None,
    }
}

/// `Value::as_bool`.
pub open spec fn as_bool(v: Option<JsonValue>) -> Option<bool> {
    match v {
        Some(JsonValue::Bool(b)) => Some(b),
        _ => None,
    }
}

/// `Value::as_str`.
pub open spec fn as_str(v: Option<JsonValue>) -> Option<Seq<char>> {
    match v {
        Some(JsonValue::Str(s)) => Some(s@),
        _ => None,
    }
}

/// `Value::as_array`.
pub open spec fn as_array(v: Option<JsonValue>) -> Option<Seq<JsonValue>> {
    match v {
        Some(JsonValue::Array(items)) => Some(items@),
        _ => None,
    }
}

proof fn lemma_lookup_skip(entries: Seq<(String, JsonValue)>, k: Seq<char>, i: int)
    requires
        0 <= i <= entries.len(),
        forall|j: int| 0 <= j < i ==> entries[j].0@ != k,
    ensures
        lookup(entries, k) == lookup(entries.skip(i), k),
    decreases i,
{
    if i > 0 {
        assert(entries.skip(1) =~= entries.drop_first());
        lemma_lookup_skip(entries.drop_first(), k, i - 1);
        assert(entries.drop_first().skip(i - 1) =~= entries.skip(i));
    } else {
        assert(entries.skip(0) =~= entries);
    }
}

/// Where keys are distinct, the member found for a key is the one under
/// it.
pub proof fn lookup_finds_the_member(entries: Seq<(String, JsonValue)>, k: Seq<char>, i: int)
    requires
        keys_distinct(entries),
        0 <= i < entries.len(),
        entries[i].0@ == k,
    ensures
        lookup(entries, k) == Some(entries[i].1),
{
    lemma_lookup_skip(entries, k, i);
    assert(entries.skip(i)[0] == entries[i]);
}

impl JsonValue {
    /// The member named `k`, where `self` is an object that has one.
    pub fn get_key(&self, k: &str) -> (r: Option<&JsonValue>)
        ensures
            opt(r) == get_key(*self, k@),
    {
        match self {
            JsonValue::Object(entries) => {
                let mut i: usize = 0;
                while i < entries.len()
                    invariant
                        i <= entries@.len(),
                        get_key(*self, k@) == lookup(entries@, k@),
                        forall|j: int| 0 <= j < i ==> entries@[j].0@ != k@,
                    decreases entries@.len() - i,
                {
                    if str_eq(entries[i].0.as_str(), k) {
                        proof {
                            lemma_lookup_skip(entries@, k@, i as int);
                            let rest = entries@.skip(i as int);
                            assert(rest[0] == entries@[i as int]);
                            assert(rest.len() > 0 && rest[0].0@ == k@);
                            assert(lookup(rest, k@) == Some(rest[0].1));
                        }
                        let res = Some(&entries[i].1);
                        return res;
                    }
                    i += 1;
                }
                proof {
                    lemma_lookup_skip(entries@, k@, i as int);
                }
                None
            },
            _ => None,
        }
    }

    /// Element `i`, where `self` is an array that long.
    pub fn get_index(&self, i: usize) -> (r: Option<&JsonValue>)
        ensures
            opt(r) == get_index(*self, i as int),
    {
        match self {
            JsonValue::Array(items) => {
                if i < items.len() {
                    Some(&items[i])
                } else {
                    None
                }
            },
            _ => None,
        }
    }
}

/// `value[key]` on a possibly absent value.
pub fn member<'a>(v: Option<&'a JsonValue>, k: &str) -> (r: Option<&'a JsonValue>)
    ensures
        opt(r) == member_of(opt(v), k@),
{
    match v {
        Some(x) => x.get_key(k),
        None => None,
    }
}

/// `Value::as_i64` on a possibly absent value.
pub fn value_as_i64(v: Option<&JsonValue>) -> (r: Option<i64>)
    ensures
        r == as_i64(opt(v)),
{
    match v {
        Some(JsonValue::PosInt(n)) => if *n <= 0x7fff_ffff_ffff_ffffu64 {
            Some(*n as i64)
        } else {
            None
        },
        Some(JsonValue::NegInt(n)) => Some(*n),
        _ => None,
    }
}

/// `Value::as_u64` on a possibly absent value.
pub fn value_as_u64(v: Option<&JsonValue>) -> (r: Option<u64>)
    ensures
        r == as_u64(opt(v)),
{
    match v {
        Some(JsonValue::PosInt(n)) => Some(*n),
        _ => None,
    }
}

/// `Value::as_bool` on a possibly absent value.
pub fn value_as_bool(v: Option<&JsonValue>) -> (r: Option<bool>)
    ensures
        r == as_bool(opt(v)),
{
    match v {
        Some(JsonValue::Bool(b)) => Some(*b),
        _ => None,
    }
}

/// `Value::as_str` on a possibly absent value.
pub fn value_as_str(v: Option<&JsonValue>) -> (r: Option<&String>)
    ensures
        as_str(opt(v)) == match r {
            Some(s) => Some(s@),
            None => None,
        },
{
    match v {
        Some(JsonValue::Str(s)) => Some(s),
        _ => None,
    }
}

/// `Value::as_array` on a possibly absent value.
pub fn value_as_array(v: Option<&JsonValue>) -> (r: Option<&Vec<JsonValue>>)
    ensures
        as_array(opt(v)) == match r {
            Some(a) => Some(a@),
            None => None,
        },
{
    match v {
        Some(JsonValue::Array(a)) => Some(a),
        _ => None,
    }
}

} // verus!
