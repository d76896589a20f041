//! The user's skill gallery: skills added under distinct IDs, removed by
//! ID.

use vstd::prelude::*;
use vstd::string::*;
use crate::json::{get, member, str_of, text_in, JsonValue};
use crate::text::str_eq;

verus! {

/// The ID of a skill: its "id" text.
pub open spec fn skill_id(s: JsonValue) -> Option<Seq<char>> {
    str_of(member(s, "id"@))
}

/// The ID a new skill is added under: its "id", or "custom".
pub open spec fn new_skill_id(body: JsonValue) -> Seq<char> {
    match skill_id(body) {
        Some(id) => id,
        None => "custom"@,
    }
}

/// Some skill of `ss` has the ID `id`.
pub open spec fn has_id(ss: Seq<JsonValue>, id: Seq<char>) -> bool {
    exists|i: int| 0 <= i < ss.len() && skill_id(ss[i]) == Some(id)
}

fn id_of(s: &JsonValue) -> (r: Option<&str>)
    ensures
        match r {
            Some(t) => skill_id(*s) == Some(t@),
            None => skill_id(*s) is None,
        },
{
    text_in(get(s, "id"))
}

/// Adds a skill to the gallery: refused with "Skill '<id>' already exists"
/// where a skill has its ID, else added at the end; the ID it was added
/// under.
pub fn gallery_add(skills: &mut Vec<JsonValue>, body: JsonValue) -> (r: Result<String, String>)
    ensures
        has_id(old(skills)@, new_skill_id(body)) ==> (r matches Err(e)
            && e@ == "Skill '"@ + new_skill_id(body) + "' already exists"@
            && final(skills)@ == old(skills)@),
        !has_id(old(skills)@, new_skill_id(body)) ==> (r matches Ok(id)
            && id@ == new_skill_id(body)
            && final(skills)@ == old(skills)@.push(body)),
{
    let id = match id_of(&body) {
        Some(t) => String::from_str(t),
        None => String::from_str("custom"),
    };
    let mut i: usize = 0;
    while i < skills.len()
        invariant
            i <= skills.len(),
            skills@ == old(skills)@,
            id@ == new_skill_id(body),
            forall|j: int| 0 <= j < i ==> skill_id(skills@[j]) != Some(id@),
        decreases skills.len() - i,
    {
        let same = match id_of(&skills[i]) {
            Some(t) => str_eq(t, id.as_str()),
            None => false,
        };
        if same {
            let mut e = String::from_str("Skill '");
            e.append(id.as_str());
            e.append("' already exists");
            return Err(e);
        }
        i = i + 1;
    }
    skills.push(body);
    Ok(id)
}

/// The skills whose ID is not `id`, in order.
pub open spec fn without_id(ss: Seq<JsonValue>, id: Seq<char>) -> Seq<JsonValue>
    decreases ss.len(),
{
    if ss.len() == 0 {
        ss
    } else if skill_id(ss.last()) == Some(id) {
        without_id(ss.drop_last(), id)
    } else {
        without_id(ss.drop_last(), id).push(ss.last())
    }
}

proof fn lemma_without_id_len(ss: Seq<JsonValue>, id: Seq<char>)
    ensures
        without_id(ss, id).len() <= ss.len(),
        without_id(ss, id).len() == ss.len() <==> !has_id(ss, id),
        forall|k: int| 0 <= k < without_id(ss, id).len() ==> skill_id(#[trigger] without_id(ss, id)[k]) != Some(id),
    decreases ss.len(),
{
    if ss.len() > 0 {
        let t = ss.drop_last();
        lemma_without_id_len(t, id);
        if has_id(t, id) {
            let i = choose|i: int| 0 <= i < t.len() && skill_id(t[i]) == Some(id);
            assert(skill_id(ss[i]) == Some(id));
        }
        if has_id(ss, id) && skill_id(ss.last()) != Some(id) {
            let i = choose|i: int| 0 <= i < ss.len() && skill_id(ss[i]) == Some(id);
            assert(i < t.len());
            assert(skill_id(t[i]) == Some(id));
        }
        if skill_id(ss.last()) == Some(id) {
            assert(skill_id(ss[ss.len() - 1]) == Some(id));
        }
    }
}

/// Removes the skills with the ID `id`; whether any was removed. No skill
/// with that ID remains.
pub fn gallery_remove(skills: Vec<JsonValue>, id: &str) -> (r: (Vec<JsonValue>, bool))
    ensures
        r.0@ == without_id(skills@, id@),
        r.1 == has_id(skills@, id@),
        forall|k: int| 0 <= k < r.0@.len() ==> skill_id(#[trigger] r.0@[k]) != Some(id@),
{
    let ghost all = skills@;
    let n = skills.len();
    let mut kept: Vec<JsonValue> = Vec::new();
    let mut i: usize = 0;
    let mut rest = skills;
    assert(all.take(0) =~= Seq::<JsonValue>::empty());
    assert(all.skip(0) =~= all);
    while rest.len() > 0
        invariant
            i + rest.len() == n,
            n == all.len(),
            kept@ == without_id(all.take(i as int), id@),
            rest@ == all.skip(i as int),
        decreases rest.len(),
    {
        let s = rest.remove(0);
        assert(s == all[i as int]);
        assert(all.skip(i as int).remove(0) =~= all.skip(i + 1));
        assert(all.take(i + 1).drop_last() =~= all.take(i as int));
        assert(all.take(i + 1).last() == all[i as int]);
        let same = match id_of(&s) {
            Some(t) => str_eq(t, id),
            None => false,
        };
        if !same {
            kept.push(s);
        }
        i = i + 1;
    }
    assert(all.take(n as int) =~= all);
    proof {
        lemma_without_id_len(all, id@);
    }
    let removed = kept.len() != n;
    (kept, removed)
}

} // verus!
