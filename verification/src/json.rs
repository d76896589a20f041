//! JSON values as the channel adapters read them, and the reads they make:
//! a member by key, the value as text, as an integer or as an array. A
//! missing member reads as `null`, as with `serde_json`'s indexing.

use vstd::prelude::*;
use vstd::string::*;
use crate::numparse::{parse_i64, parse_i64_chars, parse_u64, parse_u64_chars};
use crate::text::{chars_of, str_eq};

verus! {

/// A JSON value. A number keeps its JSON text; the members of an object
/// keep their order, and their keys are distinct.
#[derive(Debug)]
pub enum JsonValue {
    Null,
    Bool(bool),
    Number(String),
    Str(String),
    Array(Vec<JsonValue>),
    Object(Vec<(String, JsonValue)>),
}

/// The position of the first member named `key`.
pub open spec fn key_pos(ms: Seq<(String, JsonValue)>, key: Seq<char>) -> Option<int>
    decreases ms.len(),
{
    if ms.len() == 0 {
        None
    } else if ms[0].0@ == key {
        Some(0)
    } else {
        match key_pos(ms.drop_first(), key) {
            Some(i) => Some(i + 1),
            None => None,
        }
    }
}

/// The member `key` of an object; `null` where there is none.
pub open spec fn member(v: JsonValue, key: Seq<char>) -> JsonValue {
    match v {
        JsonValue::Object(ms) => match key_pos(ms@, key) {
            Some(i) => ms@[i].1,
            None => JsonValue::Null,
        },
        _ => JsonValue::Null,
    }
}

/// The text of a string value.
pub open spec fn str_of(v: JsonValue) -> Option<Seq<char>> {
    match v {
        JsonValue::Str(s) => Some(s@),
        _ => None,
    }
}

/// The value of a boolean.
pub open spec fn bool_of(v: JsonValue) -> Option<bool> {
    match v {
        JsonValue::Bool(b) => Some(b),
        _ => None,
    }
}

/// The elements of an array; nothing for any other value.
pub open spec fn items_of(v: JsonValue) -> Seq<JsonValue> {
    match v {
        JsonValue::Array(a) => a@,
        _ => Seq::empty(),
    }
}

/// A number read as an `i64`, where its text is an integer in range.
pub open spec fn i64_of(v: JsonValue) -> Option<i64> {
    match v {
        JsonValue::Number(t) => parse_i64(t@),
        _ => None,
    }
}

/// A number read as a `u64`, where its text is an integer in range.
pub open spec fn u64_of(v: JsonValue) -> Option<u64> {
    match v {
        JsonValue::Number(t) => parse_u64(t@),
        _ => None,
    }
}

/// A value that may be absent, with absence read as `null`.
pub open spec fn or_null(o: Option<&JsonValue>) -> JsonValue {
    match o {
        Some(v) => *v,
        None => JsonValue::Null,
    }
}

proof fn lemma_key_pos_found(ms: Seq<(String, JsonValue)>, key: Seq<char>, i: int)
    requires
        0 <= i < ms.len(),
        ms[i].0@ == key,
        forall|j: int| 0 <= j < i ==> ms[j].0@ != key,
    ensures
        key_pos(ms, key) == Some(i),
    decreases i,
{
    if i > 0 {
        let t = ms.drop_first();
        assert forall|j: int| 0 <= j < i - 1 implies t[j].0@ != key by {
            assert(t[j] == ms[j + 1]);
        }
        lemma_key_pos_found(t, key, i - 1);
    }
}

proof fn lemma_key_pos_missing(ms: Seq<(String, JsonValue)>, key: Seq<char>)
    requires
        forall|j: int| 0 <= j < ms.len() ==> ms[j].0@ != key,
    ensures
        key_pos(ms, key) is None,
    decreases ms.len(),
{
    if ms.len() > 0 {
        let t = ms.drop_first();
        assert forall|j: int| 0 <= j < t.len() implies t[j].0@ != key by {
            assert(t[j] == ms[j + 1]);
        }
        lemma_key_pos_missing(t, key);
    }
}

/// The member `key` of a value that may be absent (`v[key]`).
pub fn get_in<'a>(v: Option<&'a JsonValue>, key: &str) -> (r: Option<&'a JsonValue>)
    ensures
        or_null(r) == member(or_null(v), key@),
{
    let x = match v {
        Some(x) => x,
        None => return None,
    };
    assert(or_null(v) == *x);
    match x {
        JsonValue::Object(ms) => {
            let mut i: usize = 0;
            while i < ms.len()
                invariant
                    i <= ms.len(),
                    or_null(v) == JsonValue::Object(*ms),
                    forall|j: int| 0 <= j < i ==> ms@[j].0@ != key@,
                decreases ms.len() - i,
            {
                if str_eq(ms[i].0.as_str(), key) {
                    proof {
                        lemma_key_pos_found(ms@, key@, i as int);
                    }
                    return Some(&ms[i].1);
                }
                i = i + 1;
            }
            proof {
                lemma_key_pos_missing(ms@, key@);
            }
            None
        },
        _ => None,
    }
}

/// The member `key` of a value (`v[key]`).
pub fn get<'a>(v: &'a JsonValue, key: &str) -> (r: Option<&'a JsonValue>)
    ensures
        or_null(r) == member(*v, key@),
{
    get_in(Some(v), key)
}

/// The text of a value that may be absent (`v.as_str()`).
pub fn text_in<'a>(v: Option<&'a JsonValue>) -> (r: Option<&'a str>)
    ensures
        match r {
            Some(s) => str_of(or_null(v)) == Some(s@),
            None => str_of(or_null(v)) is None,
        },
{
    match v {
        Some(JsonValue::Str(s)) => Some(s.as_str()),
        _ => None,
    }
}

/// A value that may be absent, read as a boolean (`v.as_bool()`).
pub fn bool_in(v: Option<&JsonValue>) -> (r: Option<bool>)
    ensures
        r == bool_of(or_null(v)),
{
    match v {
        Some(JsonValue::Bool(b)) => Some(*b),
        _ => None,
    }
}

/// The elements of a value that may be absent; none unless it is an array.
pub fn items_in<'a>(v: Option<&'a JsonValue>) -> (r: &'a [JsonValue])
    ensures
        r@ == items_of(or_null(v)),
{
    match v {
        Some(JsonValue::Array(a)) => a.as_slice(),
        _ => &[],
    }
}

/// A value that may be absent, read as an `i64` (`v.as_i64()`).
pub fn i64_in(v: Option<&JsonValue>) -> (r: Option<i64>)
    ensures
        r == i64_of(or_null(v)),
{
    match v {
        Some(JsonValue::Number(t)) => {
            let cs = chars_of(t.as_str());
            parse_i64_chars(cs.as_slice())
        },
        _ => None,
    }
}

/// A value that may be absent, read as a `u64` (`v.as_u64()`).
pub fn u64_in(v: Option<&JsonValue>) -> (r: Option<u64>)
    ensures
        r == u64_of(or_null(v)),
{
    match v {
        Some(JsonValue::Number(t)) => {
            let cs = chars_of(t.as_str());
            parse_u64_chars(cs.as_slice())
        },
        _ => None,
    }
}

} // verus!
