//! A JSON document as plain values, with the lookups that the answers of the language model
//! are read with.
use vstd::prelude::*;
use crate::text::same_text;

verus! {

/// One member of a JSON object.
#[derive(Debug)]
pub struct JsonMember {
    pub key: String,
    pub value: JsonValue,
}

/// A JSON value. Numbers are kept only as far as they are read: a non-negative integer
/// that fits in `u64` is `UInt`; every other number is `OtherNumber`, with whether it is
/// greater than zero.
#[derive(Debug)]
pub enum JsonValue {
    Null,
    Bool(bool),
    UInt(u64),
    OtherNumber { positive: bool },
    Str(String),
    Array(Vec<JsonValue>),
    Object(Vec<JsonMember>),
}

/// The value of the first member named `key`.
pub open spec fn member_lookup(members: Seq<JsonMember>, key: Seq<char>) -> Option<JsonValue>
    decreases members.len(),
{
    if members.len() == 0 {
        None
    } else if members[0].key@ == key {
        Some(members[0].value)
    } else {
        member_lookup(members.drop_first(), key)
    }
}

/// `Value::get(key)`: the member `key` of an object; nothing for other values.
pub open spec fn json_get(v: JsonValue, key: Seq<char>) -> Option<JsonValue> {
    match v {
        JsonValue::Object(members) => member_lookup(members@, key),
        _ => None,
    }
}

/// `Value::as_u64`.
pub open spec fn json_as_u64(v: JsonValue) -> Option<u64> {
    match v {
        JsonValue::UInt(n) => Some(n),
        _ => None,
    }
}

/// The value is a number (`Value::as_f64` gives a value).
pub open spec fn json_is_number(v: JsonValue) -> bool {
    v is UInt || v is OtherNumber
}

/// The value is a number greater than zero.
pub open spec fn json_is_positive_number(v: JsonValue) -> bool {
    match v {
        JsonValue::UInt(n) => n > 0,
        JsonValue::OtherNumber { positive } => positive,
        _ => false,
    }
}

/// `Value::as_str`.
pub open spec fn json_as_str(v: JsonValue) -> Option<Seq<char>> {
    match v {
        JsonValue::Str(s) => Some(s@),
        _ => None,
    }
}

/// The members of an object (`Value::as_object`).
pub open spec fn json_as_object(v: JsonValue) -> Option<Seq<JsonMember>> {
    match v {
        JsonValue::Object(members) => Some(members@),
        _ => None,
    }
}

/// The first element of an array (`Value::as_array` then `first`).
pub open spec fn json_first_element(v: JsonValue) -> Option<JsonValue> {
    match v {
        JsonValue::Array(items) => if items@.len() > 0 {
            Some(items@[0])
        } else {
            None
        },
        _ => None,
    }
}

/// The value of the first member named `key`.
pub fn lookup_member<'a>(members: &'a Vec<JsonMember>, key: &str) -> (res: Option<&'a JsonValue>)
    ensures
        match res {
            Some(v) => member_lookup(members@, key@) == Some(*v),
            None => member_lookup(members@, key@) is None,
        },
{
    let n = members.len();
    let mut i: usize = 0;
    assert(members@.skip(0) =~= members@);
    while i < n
        invariant
            n == members.len(),
            i <= n,
            member_lookup(members@, key@) == member_lookup(members@.skip(i as int), key@),
        decreases n - i,
    {
        assert(members@.skip(i as int).drop_first() =~= members@.skip(i + 1));
        if same_text(members[i].key.as_str(), key) {
            return Some(&members[i].value);
        }
        i = i + 1;
    }
    None
}

impl JsonValue {
    /// The member `key` of an object; nothing for other values.
    pub fn get(&self, key: &str) -> (res: Option<&JsonValue>)
        ensures
            match res {
                Some(v) => json_get(*self, key@) == Some(*v),
                None => json_get(*self, key@) is None,
            },
    {
        match self {
            JsonValue::Object(members) => lookup_member(members, key),
            _ => None,
        }
    }

    /// The number, if it is a non-negative integer that fits in `u64`.
    pub fn as_u64(&self) -> (res: Option<u64>)
        ensures
            res == json_as_u64(*self),
    {
        match self {
            JsonValue::UInt(n) => Some(*n),
            _ => None,
        }
    }

    /// Whether the value is a number.
    pub fn is_number(&self) -> (res: bool)
        ensures
            res == json_is_number(*self),
    {
        match self {
            JsonValue::UInt(_) => true,
            JsonValue::OtherNumber { .. } => true,
            _ => false,
        }
    }

    /// Whether the value is a number greater than zero.
    pub fn is_positive_number(&self) -> (res: bool)
        ensures
            res == json_is_positive_number(*self),
    {
        match self {
            JsonValue::UInt(n) => *n > 0,
            JsonValue::OtherNumber { positive } => *positive,
            _ => false,
        }
    }

    /// The text, if the value is a string.
    pub fn as_str(&self) -> (res: Option<&str>)
        ensures
            match res {
                Some(s) => json_as_str(*self) == Some(s@),
                None => json_as_str(*self) is None,
            },
    {
        match self {
            JsonValue::Str(s) => Some(s.as_str()),
            _ => None,
        }
    }

    /// The members, if the value is an object.
    pub fn as_object(&self) -> (res: Option<&Vec<JsonMember>>)
        ensures
            match res {
                Some(m) => json_as_object(*self) == Some(m@),
                None => json_as_object(*self) is None,
            },
    {
        match self {
            JsonValue::Object(members) => Some(members),
            _ => None,
        }
    }

    /// The first element, if the value is a non-empty array.
    pub fn first_element(&self) -> (res: Option<&JsonValue>)
        ensures
            match res {
                Some(v) => json_first_element(*self) == Some(*v),
                None => json_first_element(*self) is None,
            },
    {
        match self {
            JsonValue::Array(items) => if items.len() > 0 {
                Some(&items[0])
            } else {
                None
            },
            _ => None,
        }
    }
}

} // verus!
