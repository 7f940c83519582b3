//! JSON values as the GitHub synchronisation reads them, and the lookups it
//! makes in them.

use vstd::prelude::*;

verus! {

/// A JSON number, as far as the lookups tell numbers apart: a non-negative
/// integer, a negative integer, or a number with a fraction or exponent.
pub enum JsonNumber {
    PosInt(u64),
    NegInt(i64),
    Float,
}

/// A JSON value. An object keeps its members in order; its keys are
/// distinct in values read from JSON text.
pub enum JsonValue {
    Null,
    Bool(bool),
    Number(JsonNumber),
    String(String),
    Array(Vec<JsonValue>),
    Object(Vec<(String, JsonValue)>),
}

/// The value of the first member named `key`.
pub open spec fn member(entries: Seq<(String, JsonValue)>, key: Seq<char>) -> Option<JsonValue>
    decreases entries.len(),
{
    if entries.len() == 0 {
        None
    } else if entries[0].0@ == key {
        Some(entries[0].1)
    } else {
        member(entries.drop_first(), key)
    }
}

/// The member `key` of a value that may be missing: `None` unless it is an
/// object with such a member (`serde_json::Value::get` with a string key).
pub open spec fn get_spec(v: Option<JsonValue>, key: Seq<char>) -> Option<JsonValue> {
    match v {
        Some(JsonValue::Object(entries)) => member(entries@, key),
        _ => None,
    }
}

/// The text of a value that may be missing, where it is a string
/// (`serde_json::Value::as_str`).
pub open spec fn as_str_spec(v: Option<JsonValue>) -> Option<Seq<char>> {
    match v {
        Some(JsonValue::String(s)) => Some(s@),
        _ => None,
    }
}

/// The value of a value that may be missing, where it is a non-negative
/// integer (`serde_json::Value::as_u64`).
pub open spec fn as_u64_spec(v: Option<JsonValue>) -> Option<u64> {
    match v {
        Some(JsonValue::Number(JsonNumber::PosInt(n))) => Some(n),
        _ => None,
    }
}

/// The elements of a value that may be missing, where it is an array
/// (`serde_json::Value::as_array`).
pub open spec fn as_array_spec(v: Option<JsonValue>) -> Option<Seq<JsonValue>> {
    match v {
        Some(JsonValue::Array(items)) => Some(items@),
        _ => None,
    }
}

impl JsonValue {
    /// The value of the member `key`, where this is an object that has one.
    pub fn get(&self, key: &str) -> (r: Option<&JsonValue>)
        ensures
            match get_spec(Some(*self), key@) {
                Some(v) => r matches Some(x) && *x == v,
                None => r is None,
            },
    {
        match self {
            JsonValue::Object(entries) => {
                let n = entries.len();
                assert(entries@.skip(0) =~= entries@);
                for i in 0..n
                    invariant
                        n == entries@.len(),
                        *self == JsonValue::Object(*entries),
                        member(entries@, key@) == member(entries@.skip(i as int), key@),
                {
                    proof {
                        assert(entries@.skip(i as int).drop_first() =~= entries@.skip(i + 1));
                        assert(entries@.skip(i as int)[0] == entries@[i as int]);
                    }
                    if crate::text::str_eq(entries[i].0.as_str(), key) {
                        return Some(&entries[i].1);
                    }
                }
                assert(entries@.skip(n as int) =~= Seq::<(String, JsonValue)>::empty());
                None
            },
            _ => None,
        }
    }

    /// The text of this value, where it is a string.
    pub fn as_str(&self) -> (r: Option<String>)
        ensures
            match as_str_spec(Some(*self)) {
                Some(t) => r matches Some(x) && x@ == t,
                None => r is None,
            },
    {
        match self {
            JsonValue::String(s) => Some(s.clone()),
            _ => None,
        }
    }

    /// The value of this value, where it is a non-negative integer.
    pub fn as_u64(&self) -> (r: Option<u64>)
        ensures
            r == as_u64_spec(Some(*self)),
    {
        match self {
            JsonValue::Number(JsonNumber::PosInt(n)) => Some(*n),
            _ => None,
        }
    }

    /// The elements of this value, where it is an array.
    pub fn as_array(&self) -> (r: Option<&Vec<JsonValue>>)
        ensures
            match as_array_spec(Some(*self)) {
                Some(items) => r matches Some(x) && x@ == items,
                None => r is None,
            },
    {
        match self {
            JsonValue::Array(items) => Some(items),
            _ => None,
        }
    }
}

/// The member `key` of a value that may be missing.
pub fn get_opt<'a>(v: Option<&'a JsonValue>, key: &str) -> (r: Option<&'a JsonValue>)
    ensures
        match get_spec(
            match v {
                Some(x) => Some(*x),
                None => None,
            },
            key@,
        ) {
            Some(w) => r matches Some(x) && *x == w,
            None => r is None,
        },
{
    match v {
        Some(x) => x.get(key),
        None => None,
    }
}

} // verus!
