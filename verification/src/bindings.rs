//! Which channels each agent answers on: the channel names of a binding
//! request, and the bindings object (agent name to channel names) after
//! one agent's binding is set.

use vstd::prelude::*;
use vstd::string::*;
use crate::json::{get, items_in, items_of, key_pos, member, str_of, JsonValue};
use crate::text::str_eq;

verus! {

/// The text elements of a JSON array, in order.
pub open spec fn texts_of(items: Seq<JsonValue>) -> Seq<Seq<char>>
    decreases items.len(),
{
    if items.len() == 0 {
        Seq::empty()
    } else {
        match str_of(items.last()) {
            Some(t) => texts_of(items.drop_last()).push(t),
            None => texts_of(items.drop_last()),
        }
    }
}

/// The channel names of a binding request: the text elements of its
/// "channels" array (none where there is no array).
pub fn bound_channels(body: &JsonValue) -> (r: Vec<String>)
    ensures
        r@.map_values(|s: String| s@) == texts_of(items_of(member(*body, "channels"@))),
{
    let items = items_in(get(body, "channels"));
    let mut out: Vec<String> = Vec::new();
    let mut i: usize = 0;
    assert(items@.take(0) =~= Seq::<JsonValue>::empty());
    assert(out@.map_values(|s: String| s@) =~= Seq::<Seq<char>>::empty());
    while i < items.len()
        invariant
            i <= items.len(),
            out@.map_values(|s: String| s@) == texts_of(items@.take(i as int)),
        decreases items.len() - i,
    {
        assert(items@.take(i + 1).drop_last() =~= items@.take(i as int));
        assert(items@.take(i + 1).last() == items@[i as int]);
        match &items[i] {
            JsonValue::Str(t) => {
                let ghost before = out@;
                out.push(t.clone());
                assert(out@.map_values(|s: String| s@) =~= before.map_values(|s: String| s@).push(t@));
            },
            _ => {},
        }
        i = i + 1;
    }
    assert(items@.take(items.len() as int) =~= items@);
    out
}

/// A list of channel names as a JSON array of strings.
pub open spec fn names_array(v: JsonValue, names: Seq<Seq<char>>) -> bool {
    &&& v is Array
    &&& items_of(v).len() == names.len()
    &&& forall|i: int| 0 <= i < names.len() ==> str_of(#[trigger] items_of(v)[i]) == Some(names[i])
}

fn names_json(names: &Vec<String>) -> (r: JsonValue)
    ensures
        names_array(r, names@.map_values(|s: String| s@)),
{
    let mut out: Vec<JsonValue> = Vec::new();
    let mut i: usize = 0;
    while i < names.len()
        invariant
            i <= names.len(),
            out@.len() == i,
            forall|j: int| 0 <= j < i ==> str_of(#[trigger] out@[j]) == Some(names@[j]@),
        decreases names.len() - i,
    {
        out.push(JsonValue::Str(names[i].clone()));
        i = i + 1;
    }
    JsonValue::Array(out)
}

proof fn lemma_key_pos_found(ms: Seq<(String, JsonValue)>, key: Seq<char>, i: int)
    requires
        0 <= i < ms.len(),
        ms[i].0@ == key,
        forall|j: int| 0 <= j < i ==> ms[j].0@ != key,
    ensures
        key_pos(ms, key) == Some(i),
    decreases i,
{
    if i > 0 {
        let t = ms.drop_first();
        assert forall|j: int| 0 <= j < i - 1 implies t[j].0@ != key by {
            assert(t[j] == ms[j + 1]);
        }
        lemma_key_pos_found(t, key, i - 1);
    }
}

proof fn lemma_key_pos_same(a: Seq<(String, JsonValue)>, b: Seq<(String, JsonValue)>, key: Seq<char>)
    requires
        a.len() == b.len(),
        forall|j: int| 0 <= j < a.len() ==> (#[trigger] a[j]).0@ == b[j].0@,
    ensures
        key_pos(a, key) == key_pos(b, key),
    decreases a.len(),
{
    if a.len() > 0 {
        assert forall|j: int| 0 <= j < a.len() - 1 implies (#[trigger] a.drop_first()[j]).0@ == b.drop_first()[j].0@ by {
            assert(a.drop_first()[j] == a[j + 1]);
            assert(b.drop_first()[j] == b[j + 1]);
        }
        assert(a[0].0@ == b[0].0@);
        lemma_key_pos_same(a.drop_first(), b.drop_first(), key);
    }
}

proof fn lemma_key_pos_push(ms: Seq<(String, JsonValue)>, e: (String, JsonValue), key: Seq<char>)
    ensures
        key_pos(ms.push(e), key) == (match key_pos(ms, key) {
            Some(i) => Some(i),
            None => if e.0@ == key { Some(ms.len() as int) } else { None },
        }),
    decreases ms.len(),
{
    if ms.len() > 0 {
        assert(ms.push(e).drop_first() =~= ms.drop_first().push(e));
        assert(ms.push(e)[0] == ms[0]);
        lemma_key_pos_push(ms.drop_first(), e, key);
        assert(ms.drop_first().len() + 1 == ms.len());
    } else {
        assert(ms.push(e).drop_first() =~= Seq::<(String, JsonValue)>::empty());
        assert(ms.push(e)[0] == e);
        assert(key_pos(Seq::<(String, JsonValue)>::empty(), key) is None);
    }
}

proof fn lemma_key_pos_bound(ms: Seq<(String, JsonValue)>, key: Seq<char>)
    ensures
        key_pos(ms, key) matches Some(i) ==> 0 <= i < ms.len() && ms[i].0@ == key,
    decreases ms.len(),
{
    if ms.len() > 0 {
        lemma_key_pos_bound(ms.drop_first(), key);
    }
}

/// The member `key` of an object with these members.
pub open spec fn obj_member(ms: Seq<(String, JsonValue)>, key: Seq<char>) -> JsonValue {
    match key_pos(ms, key) {
        Some(i) => ms[i].1,
        None => JsonValue::Null,
    }
}

/// The bindings object with the agent `name` bound to `channels`: its
/// member replaced in place where it is there, added at the end otherwise;
/// every other agent's binding stays. A value that is not an object counts
/// as no bindings.
pub fn with_binding(bindings: JsonValue, name: &str, channels: &Vec<String>) -> (r: JsonValue)
    ensures
        r is Object,
        names_array(member(r, name@), channels@.map_values(|s: String| s@)),
        forall|k: Seq<char>| k != name@ ==> #[trigger] member(r, k) == member(bindings, k),
{
    let ghost old_b = bindings;
    let mut ms: Vec<(String, JsonValue)> = match bindings {
        JsonValue::Object(ms) => ms,
        _ => Vec::new(),
    };
    let ghost before = ms@;
    assert(forall|k: Seq<char>| #[trigger] member(old_b, k) == obj_member(before, k));
    let arr = names_json(channels);
    let ghost arr_v = arr;
    let mut i: usize = 0;
    while i < ms.len() && !str_eq(ms[i].0.as_str(), name)
        invariant
            i <= ms.len(),
            ms@ == before,
            forall|j: int| 0 <= j < i ==> ms@[j].0@ != name@,
        decreases ms.len() - i,
    {
        i = i + 1;
    }
    if i < ms.len() {
        proof {
            lemma_key_pos_found(before, name@, i as int);
        }
        let key = ms[i].0.clone();
        ms.set(i, (key, arr));
        proof {
            assert forall|j: int| 0 <= j < ms@.len() implies (#[trigger] ms@[j]).0@ == before[j].0@ by {}
            lemma_key_pos_same(ms@, before, name@);
            assert(obj_member(ms@, name@) == arr_v);
            assert forall|k: Seq<char>| k != name@ implies #[trigger] member(JsonValue::Object(ms), k) == member(old_b, k) by {
                lemma_key_pos_same(ms@, before, k);
                lemma_key_pos_bound(before, k);
                assert(member(JsonValue::Object(ms), k) == obj_member(ms@, k));
            }
            assert(member(JsonValue::Object(ms), name@) == arr_v);
        }
        JsonValue::Object(ms)
    } else {
        proof {
            lemma_key_pos_missing_here(before, name@);
        }
        ms.push((String::from_str(name), arr));
        proof {
            assert(ms@ == before.push(ms@.last()));
            lemma_key_pos_push(before, ms@.last(), name@);
            assert(obj_member(ms@, name@) == arr_v);
            assert forall|k: Seq<char>| k != name@ implies #[trigger] member(JsonValue::Object(ms), k) == member(old_b, k) by {
                lemma_key_pos_push(before, ms@.last(), k);
                lemma_key_pos_bound(before, k);
                assert(member(JsonValue::Object(ms), k) == obj_member(ms@, k));
            }
            assert(member(JsonValue::Object(ms), name@) == arr_v);
        }
        JsonValue::Object(ms)
    }
}

proof fn lemma_key_pos_missing_here(ms: Seq<(String, JsonValue)>, key: Seq<char>)
    requires
        forall|j: int| 0 <= j < ms.len() ==> ms[j].0@ != key,
    ensures
        key_pos(ms, key) is None,
    decreases ms.len(),
{
    if ms.len() > 0 {
        let t = ms.drop_first();
        assert forall|j: int| 0 <= j < t.len() implies t[j].0@ != key by {
            assert(t[j] == ms[j + 1]);
        }
        lemma_key_pos_missing_here(t, key);
    }
}

} // verus!
