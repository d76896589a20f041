//! Skills: domain expertise written in SKILL.md files, kept in memory under
//! the lowercase form of their names and injected into a hand's prompt.

use vstd::prelude::*;
use vstd::string::*;
use vstd::utf8::*;
use crate::conversation::{blen, byte_len, byte_prefix, prefix_bytes};
use crate::order::{holds_prefix, lemma_holds_insert, lemma_insert_point, lemma_sorted_insert, sorted_names};
use crate::text::{
    chars_lt, chars_of, find_chars, find_index, lowercase, skip_chars, starts_with,
    starts_with_chars, str_eq, str_lt, string_from_chars, to_lowercase, trim_start,
    trim_start_chars,
};

verus! {

broadcast use vstd::utf8::group_utf8_lib;

/// A loaded skill.
#[derive(Debug, Clone)]
pub struct Skill {
    /// Name, from the file or directory it was read from.
    pub name: String,
    /// The markdown, without its front matter.
    pub content: String,
    /// Byte size of the file as read.
    pub size_bytes: usize,
}

/// Markdown without a leading YAML front matter block (`---` ... `---`) and
/// the white space after it.  Text that does not start with `---`, or has
/// no closing `---`, stays as it is.
pub open spec fn frontmatter_stripped(s: Seq<char>) -> Seq<char> {
    if starts_with(s, "---"@) {
        match find_index(s.skip(3), "---"@) {
            Some(i) => trim_start(s.skip(3).skip(i + 3)),
            None => s,
        }
    } else {
        s
    }
}

/// Removes the YAML front matter of a markdown text.
pub fn strip_frontmatter(content: &str) -> (r: String)
    ensures
        r@ == frontmatter_stripped(content@),
{
    proof {
        reveal_strlit("---");
    }
    let cs = chars_of(content);
    let fence = chars_of("---");
    if !starts_with_chars(cs.as_slice(), fence.as_slice()) {
        return String::from_str(content);
    }
    let rest = skip_chars(cs.as_slice(), 3);
    assert(rest@ =~= content@.skip(3));
    match find_chars(rest.as_slice(), fence.as_slice()) {
        Some(end) => {
            let after = skip_chars(rest.as_slice(), end + 3);
            assert(after@ =~= content@.skip(3).skip(end + 3));
            let t = trim_start_chars(after.as_slice());
            string_from_chars(t.as_slice())
        },
        None => String::from_str(content),
    }
}

/// A skill read from a file of `raw` text under `name`.
pub open spec fn skill_from(s: Skill, name: Seq<char>, raw: Seq<char>) -> bool {
    &&& s.name@ == name
    &&& s.content@ == frontmatter_stripped(raw)
    &&& s.size_bytes == blen(raw)
}

/// The text injected for a skill.
pub open spec fn expertise_text(s: Skill) -> Seq<char> {
    "[Domain Expertise: "@ + s.name@ + "]\n"@ + s.content@ + "\n[End expertise]"@
}

/// A context text cut to `max` bytes, with a note, when it is longer.
pub open spec fn fitted(t: Seq<char>, max: nat) -> Seq<char> {
    if blen(t) > max { byte_prefix(t, max as int) + "\n...[truncated]"@ } else { t }
}

/// The text can be cut at `max` bytes if it has to be.
pub open spec fn cuttable_at(t: Seq<char>, max: nat) -> bool {
    blen(t) > max ==> is_char_boundary(encode_utf8(t), max as int)
}

/// The sum of the sizes of the skills.
pub open spec fn size_sum(es: Seq<(Seq<char>, Skill)>) -> nat
    decreases es.len(),
{
    if es.len() == 0 { 0 } else { size_sum(es.drop_last()) + es.last().1.size_bytes as nat }
}

/// Skills keyed by the lowercase form of their names, and the directory
/// they are read from.
pub struct SkillRegistry {
    skills: Vec<(String, Skill)>,
    base_dir: String,
}

impl SkillRegistry {
    /// The skills with their keys, in loading order.
    pub closed spec fn entries(self) -> Seq<(Seq<char>, Skill)> {
        self.skills@.map_values(|e: (String, Skill)| (e.0@, e.1))
    }

    /// The keys.
    pub open spec fn keys(self) -> Seq<Seq<char>> {
        self.entries().map_values(|e: (Seq<char>, Skill)| e.0)
    }

    /// The directory the skills are read from.
    pub closed spec fn dir(self) -> Seq<char> {
        self.base_dir@
    }

    /// Keys are unique and each is the lowercase form of its skill's name.
    pub open spec fn wf(self) -> bool {
        &&& forall|i: int, j: int| 0 <= i < j < self.keys().len() ==> self.keys()[i] != self.keys()[j]
        &&& forall|i: int| 0 <= i < self.entries().len()
            ==> (#[trigger] self.entries()[i]).0 == lowercase(self.entries()[i].1.name@)
    }

    /// An empty registry for skills under `base_dir`; the files there are
    /// read by the caller and handed over with `load_skill`.
    pub fn new(base_dir: &str) -> (r: Self)
        ensures
            r.wf(),
            r.entries() == Seq::<(Seq<char>, Skill)>::empty(),
            r.dir() == base_dir@,
    {
        let r = SkillRegistry { skills: Vec::new(), base_dir: String::from_str(base_dir) };
        assert(r.entries() =~= Seq::<(Seq<char>, Skill)>::empty());
        r
    }

    /// The directory the skills are read from.
    pub fn base_dir(&self) -> (r: &str)
        ensures
            r@ == self.dir(),
    {
        self.base_dir.as_str()
    }

    fn find_key(&self, key: &str) -> (r: Option<usize>)
        ensures
            match r {
                Some(i) => i < self.entries().len() && self.keys()[i as int] == key@,
                None => !self.keys().contains(key@),
            },
    {
        let mut i: usize = 0;
        while i < self.skills.len()
            invariant
                i <= self.skills.len(),
                forall|j: int| 0 <= j < i ==> self.skills@[j].0@ != key@,
            decreases self.skills.len() - i,
        {
            if str_eq(self.skills[i].0.as_str(), key) {
                assert(self.keys()[i as int] == key@);
                return Some(i);
            }
            i = i + 1;
        }
        proof {
            if self.keys().contains(key@) {
                let k = choose|k: int| 0 <= k < self.keys().len() && self.keys()[k] == key@;
                assert(self.skills@[k].0@ == key@);
            }
        }
        None
    }

    /// Adds the skill read from a file of `raw` text under `name` (front
    /// matter stripped, size in bytes of `raw`); a skill under the same
    /// lowercase name is replaced in place.
    pub fn load_skill(&mut self, name: &str, raw: &str)
        requires
            old(self).wf(),
        ensures
            final(self).wf(),
            final(self).dir() == old(self).dir(),
            old(self).keys().contains(lowercase(name@)) ==> exists|i: int|
                0 <= i < old(self).entries().len() && old(self).keys()[i] == lowercase(name@)
                && final(self).entries().len() == old(self).entries().len()
                && final(self).entries() == old(self).entries().update(i, final(self).entries()[i])
                && final(self).entries()[i].0 == lowercase(name@)
                && skill_from(final(self).entries()[i].1, name@, raw@),
            !old(self).keys().contains(lowercase(name@)) ==> final(self).entries().len() == old(self).entries().len() + 1
                && final(self).entries() == old(self).entries().push(final(self).entries().last())
                && final(self).entries().last().0 == lowercase(name@)
                && skill_from(final(self).entries().last().1, name@, raw@),
    {
        let key = to_lowercase(name);
        let size = byte_len(raw);
        let content = strip_frontmatter(raw);
        let skill = Skill { name: String::from_str(name), content, size_bytes: size };
        let ghost e = (key@, skill);
        match self.find_key(key.as_str()) {
            Some(i) => {
                self.skills.set(i, (key, skill));
                assert(self.entries() =~= old(self).entries().update(i as int, e));
                assert(self.keys() =~= old(self).keys());
            },
            None => {
                self.skills.push((key, skill));
                assert(self.entries() =~= old(self).entries().push(e));
                assert(self.keys() =~= old(self).keys().push(e.0));
            },
        }
    }

    /// The skill loaded under the lowercase form of `name`.
    pub fn get(&self, name: &str) -> (r: Option<&Skill>)
        ensures
            r is Some <==> self.keys().contains(lowercase(name@)),
            r matches Some(s) ==> exists|i: int| 0 <= i < self.entries().len()
                && self.keys()[i] == lowercase(name@) && self.entries()[i].1 == *s,
    {
        let key = to_lowercase(name);
        match self.find_key(key.as_str()) {
            Some(i) => Some(&self.skills[i].1),
            None => None,
        }
    }

    /// The expertise text for the hand's skill, cut to `max_chars` bytes
    /// (and marked so) when it is longer; `None` when no skill is loaded
    /// under the hand's name.
    pub fn build_context(&self, hand_name: &str, max_chars: usize) -> (r: Option<String>)
        requires
            forall|i: int| 0 <= i < self.entries().len() && self.keys()[i] == lowercase(hand_name@)
                ==> cuttable_at(expertise_text(#[trigger] self.entries()[i].1), max_chars as nat),
        ensures
            r is Some <==> self.keys().contains(lowercase(hand_name@)),
            r matches Some(t) ==> exists|i: int| 0 <= i < self.entries().len()
                && self.keys()[i] == lowercase(hand_name@)
                && t@ == fitted(expertise_text(self.entries()[i].1), max_chars as nat),
    {
        let key = to_lowercase(hand_name);
        match self.find_key(key.as_str()) {
            Some(i) => {
                let skill = &self.skills[i].1;
                assert(self.entries()[i as int].1 == *skill);
                let text = expertise(skill);
                Some(fit_context(text, max_chars))
            },
            None => None,
        }
    }

    /// As `build_context`, but `None` also where the text would have to be
    /// cut inside a character.
    pub fn try_build_context(&self, hand_name: &str, max_chars: usize) -> (r: Option<String>)
        requires
            self.wf(),
        ensures
            r is Some <==> exists|i: int| 0 <= i < self.entries().len()
                && self.keys()[i] == lowercase(hand_name@)
                && cuttable_at(expertise_text(self.entries()[i].1), max_chars as nat),
            r matches Some(t) ==> exists|i: int| 0 <= i < self.entries().len()
                && self.keys()[i] == lowercase(hand_name@)
                && t@ == fitted(expertise_text(self.entries()[i].1), max_chars as nat),
    {
        let key = to_lowercase(hand_name);
        match self.find_key(key.as_str()) {
            Some(i) => {
                let skill = &self.skills[i].1;
                let text = expertise(skill);
                let n = byte_len(text.as_str());
                if n > max_chars && !text.as_str().is_char_boundary(max_chars) {
                    proof {
                        self.lemma_key_unique(i as int, key@);
                    }
                    return None;
                }
                proof {
                    self.lemma_key_unique(i as int, key@);
                }
                self.build_context(hand_name, max_chars)
            },
            None => None,
        }
    }

    proof fn lemma_key_unique(self, i: int, key: Seq<char>)
        requires
            self.wf(),
            0 <= i < self.entries().len(),
            self.keys()[i] == key,
        ensures
            forall|j: int| 0 <= j < self.entries().len() && self.keys()[j] == key ==> j == i,
    {
        assert forall|j: int| 0 <= j < self.entries().len() && self.keys()[j] == key implies j == i by {
            if j < i {
                assert(self.keys()[j] != self.keys()[i]);
            } else if j > i {
                assert(self.keys()[i] != self.keys()[j]);
            }
        }
    }

    /// The skills ordered by name.
    pub fn list(&self) -> (r: Vec<&Skill>)
        requires
            self.wf(),
        ensures
            r@.len() == self.entries().len(),
            holds_prefix(r@.map_values(|s: &Skill| *s), self.skill_values(), self.entries().len() as int),
            sorted_names(r@.map_values(|s: &Skill| s.name@)),
    {
        let mut r: Vec<&Skill> = Vec::new();
        let mut i: usize = 0;
        while i < self.skills.len()
            invariant
                self.wf(),
                i <= self.skills.len(),
                r@.len() == i,
                holds_prefix(r@.map_values(|s: &Skill| *s), self.skill_values(), i as int),
                sorted_names(r@.map_values(|s: &Skill| s.name@)),
            decreases self.skills.len() - i,
        {
            let s = &self.skills[i].1;
            let ghost sn = s.name@;
            let ghost on = r@.map_values(|s: &Skill| s.name@);
            let ghost ov = r@.map_values(|s: &Skill| *s);
            assert(self.skill_values()[i as int] == *s);
            let mut p: usize = 0;
            while p < r.len() && str_lt(r[p].name.as_str(), s.name.as_str())
                invariant
                    p <= r@.len(),
                    sn == s.name@,
                    on == r@.map_values(|s: &Skill| s.name@),
                    forall|q: int| 0 <= q < p ==> chars_lt(#[trigger] on[q], sn),
                decreases r@.len() - p,
            {
                p = p + 1;
            }
            proof {
                self.lemma_fresh_name(ov, i as int);
                assert forall|q: int| 0 <= q < on.len() implies #[trigger] on[q] != sn by {
                    assert(on[q] == ov[q].name@);
                }
                lemma_insert_point(on, p as int, sn);
                lemma_sorted_insert(on, p as int, sn);
                lemma_holds_insert(ov, self.skill_values(), i as int, p as int);
            }
            r.insert(p, s);
            proof {
                assert(r@.map_values(|s: &Skill| s.name@) =~= on.insert(p as int, sn));
                assert(r@.map_values(|s: &Skill| *s) =~= ov.insert(p as int, self.skill_values()[i as int]));
            }
            i = i + 1;
        }
        r
    }

    /// The skills, in loading order.
    pub open spec fn skill_values(self) -> Seq<Skill> {
        self.entries().map_values(|e: (Seq<char>, Skill)| e.1)
    }

    proof fn lemma_fresh_name(self, ov: Seq<Skill>, i: int)
        requires
            self.wf(),
            holds_prefix(ov, self.skill_values(), i),
            0 <= i < self.entries().len(),
        ensures
            forall|q: int| 0 <= q < ov.len() ==> (#[trigger] ov[q]).name@ != self.skill_values()[i].name@,
    {
        assert forall|q: int| 0 <= q < ov.len() implies (#[trigger] ov[q]).name@ != self.skill_values()[i].name@ by {
            let j = choose|j: int| 0 <= j < i && #[trigger] ov[q] == self.skill_values()[j];
            assert(self.entries()[j].0 == lowercase(self.entries()[j].1.name@));
            assert(self.entries()[i].0 == lowercase(self.entries()[i].1.name@));
            assert(self.keys()[j] != self.keys()[i]);
        }
    }

    /// Number of loaded skills.
    pub fn count(&self) -> (r: usize)
        ensures
            r == self.entries().len(),
    {
        self.skills.len()
    }

    /// Total size of the loaded skill files, in bytes.
    pub fn total_size(&self) -> (r: usize)
        requires
            size_sum(self.entries()) <= usize::MAX,
        ensures
            r == size_sum(self.entries()),
    {
        let ghost es = self.entries();
        let mut total: usize = 0;
        let mut i: usize = 0;
        while i < self.skills.len()
            invariant
                i <= self.skills.len(),
                es == self.entries(),
                es.len() == self.skills@.len(),
                size_sum(es) <= usize::MAX,
                total == size_sum(es.take(i as int)),
            decreases self.skills.len() - i,
        {
            assert(es.take(i as int + 1).drop_last() =~= es.take(i as int));
            proof {
                lemma_size_sum_prefix(es, i as int + 1);
            }
            total = total + self.skills[i].1.size_bytes;
            i = i + 1;
        }
        assert(es.take(i as int) =~= es);
        total
    }
}

proof fn lemma_size_sum_prefix(es: Seq<(Seq<char>, Skill)>, k: int)
    requires
        0 <= k <= es.len(),
    ensures
        size_sum(es.take(k)) <= size_sum(es),
    decreases es.len() - k,
{
    if k < es.len() {
        lemma_size_sum_prefix(es, k + 1);
        assert(es.take(k + 1).drop_last() =~= es.take(k));
    } else {
        assert(es.take(k) =~= es);
    }
}

fn expertise(s: &Skill) -> (r: String)
    ensures
        r@ == expertise_text(*s),
{
    let mut t = String::from_str("[Domain Expertise: ");
    t.append(s.name.as_str());
    t.append("]\n");
    t.append(s.content.as_str());
    t.append("\n[End expertise]");
    t
}

fn fit_context(text: String, max: usize) -> (r: String)
    requires
        cuttable_at(text@, max as nat),
    ensures
        r@ == fitted(text@, max as nat),
{
    let n = byte_len(text.as_str());
    if n <= max {
        return text;
    }
    let head = prefix_bytes(text.as_str(), max);
    let mut r = String::from_str(head);
    r.append("\n...[truncated]");
    r
}

/// A skill loaded under a name is found again under any name with the same
/// lowercase form, holding what was read: after a load, the registry's keys
/// contain the name's key, and the entry under it is the loaded skill.
pub proof fn lemma_loaded_skill_found(before: Seq<(Seq<char>, Skill)>, after: Seq<(Seq<char>, Skill)>, key: Seq<char>, s: Skill)
    requires
        (exists|i: int| 0 <= i < before.len() && before[i].0 == key && after == before.update(i, (key, s)))
            || after == before.push((key, s)),
    ensures
        after.map_values(|e: (Seq<char>, Skill)| e.0).contains(key),
        exists|i: int| 0 <= i < after.len() && after[i] == (key, s),
{
    if after == before.push((key, s)) {
        let k = before.len() as int;
        assert(after[k] == (key, s));
        assert(after.map_values(|e: (Seq<char>, Skill)| e.0)[k] == key);
    } else {
        let i = choose|i: int| 0 <= i < before.len() && before[i].0 == key && after == before.update(i, (key, s));
        assert(after[i] == (key, s));
        assert(after.map_values(|e: (Seq<char>, Skill)| e.0)[i] == key);
    }
}

} // verus!
