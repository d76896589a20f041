//! The text side of memory search: the full-text query cleaned from what
//! the user typed, the LIKE pattern of the fallback search, and how often
//! the query occurs in an entry that the fallback found.

use vstd::prelude::*;
use vstd::string::*;
use crate::conversation::{alphanumeric, is_alphanumeric};
use crate::text::{
    chars_of, is_whitespace, is_ws, lowercase, occurs_at, occurs_at_exec, string_from_chars,
    to_lowercase, trim, trim_chars,
};

verus! {

/// A character kept in a full-text query: alphanumeric, white space or '_'.
pub open spec fn query_char(c: char) -> bool {
    alphanumeric(c) || is_ws(c) || c == '_'
}

/// The characters of `s` that may stand in a full-text query, in order.
pub open spec fn cleaned(s: Seq<char>) -> Seq<char>
    decreases s.len(),
{
    if s.len() == 0 {
        s
    } else if query_char(s.last()) {
        cleaned(s.drop_last()).push(s.last())
    } else {
        cleaned(s.drop_last())
    }
}

/// The characters of `s` that may stand in a full-text query.
pub fn clean_query_chars(s: &[char]) -> (r: Vec<char>)
    ensures
        r@ == cleaned(s@),
{
    let mut r: Vec<char> = Vec::new();
    let mut i: usize = 0;
    assert(s@.take(0) =~= Seq::<char>::empty());
    while i < s.len()
        invariant
            i <= s.len(),
            r@ == cleaned(s@.take(i as int)),
        decreases s.len() - i,
    {
        let c = s[i];
        assert(s@.take(i + 1).drop_last() =~= s@.take(i as int));
        assert(s@.take(i + 1).last() == c);
        if is_alphanumeric(c) || is_whitespace(c) || c == '_' {
            r.push(c);
        }
        i = i + 1;
    }
    assert(s@.take(s.len() as int) =~= s@);
    r
}

/// The full-text query for what the user typed: its query characters, or
/// nothing where only white space would remain.
pub fn fts_query(query: &str) -> (r: Option<String>)
    ensures
        trim(cleaned(query@)).len() == 0 ==> r is None,
        trim(cleaned(query@)).len() > 0 ==> (r matches Some(q) && q@ == cleaned(query@)),
{
    let cs = chars_of(query);
    let kept = clean_query_chars(cs.as_slice());
    let t = trim_chars(kept.as_slice());
    if t.len() == 0 {
        None
    } else {
        Some(string_from_chars(kept.as_slice()))
    }
}

/// The LIKE pattern of the fallback search: the lowercase query between '%'.
pub fn like_pattern(query: &str) -> (r: String)
    ensures
        r@ == "%"@ + lowercase(query@) + "%"@,
{
    let lower = to_lowercase(query);
    let mut r = String::from_str("%");
    r.append(lower.as_str());
    r.append("%");
    r
}

/// How many times `pat` occurs in `s`, counted from the left without
/// overlaps (`str::matches(pat).count()`); an empty pattern matches at each
/// of the `s.len() + 1` positions.
pub open spec fn match_count(s: Seq<char>, pat: Seq<char>) -> nat
    decreases s.len(),
{
    if pat.len() == 0 {
        s.len() + 1
    } else if s.len() < pat.len() {
        0
    } else if occurs_at(s, pat, 0) {
        1 + match_count(s.subrange(pat.len() as int, s.len() as int), pat)
    } else {
        match_count(s.drop_first(), pat)
    }
}

/// How many times `pat` occurs in `s`, counted from the left without
/// overlaps.
pub fn count_matches(s: &[char], pat: &[char]) -> (r: usize)
    requires
        s.len() < usize::MAX,
    ensures
        r == match_count(s@, pat@),
{
    if pat.len() == 0 {
        return s.len() + 1;
    }
    let mut n: usize = 0;
    let mut i: usize = 0;
    assert(s@.subrange(0, s@.len() as int) =~= s@);
    while i < s.len()
        invariant
            i <= s.len(),
            pat@.len() > 0,
            n <= i,
            n + match_count(s@.subrange(i as int, s.len() as int), pat@) == match_count(s@, pat@),
        decreases s.len() - i,
    {
        let ghost rest = s@.subrange(i as int, s.len() as int);
        if pat.len() > s.len() - i {
            assert(match_count(rest, pat@) == 0);
            assert(s@.subrange(s.len() as int, s.len() as int) =~= Seq::<char>::empty());
            return n;
        }
        if occurs_at_exec(s, pat, i) {
            assert(rest.subrange(0, pat@.len() as int) =~= s@.subrange(i as int, i + pat@.len()));
            assert(occurs_at(rest, pat@, 0));
            assert(rest.subrange(pat@.len() as int, rest.len() as int)
                =~= s@.subrange(i + pat@.len(), s.len() as int));
            n = n + 1;
            i = i + pat.len();
        } else {
            proof {
                if occurs_at(rest, pat@, 0) {
                    assert(rest.subrange(0, pat@.len() as int) =~= s@.subrange(i as int, i + pat@.len()));
                    assert(occurs_at(s@, pat@, i as int));
                }
                assert(rest.drop_first() =~= s@.subrange(i + 1, s.len() as int));
            }
            i = i + 1;
        }
    }
    assert(s@.subrange(s.len() as int, s.len() as int) =~= Seq::<char>::empty());
    n
}

/// A cleaned query holds nothing but letters, digits, white space and '_',
/// so no full-text search operator or quote reaches the index.
pub proof fn lemma_cleaned_only_query_chars(s: Seq<char>)
    ensures
        forall|i: int| 0 <= i < cleaned(s).len() ==> query_char(#[trigger] cleaned(s)[i]),
        cleaned(s).len() <= s.len(),
    decreases s.len(),
{
    if s.len() > 0 {
        lemma_cleaned_only_query_chars(s.drop_last());
    }
}

/// Cleaning a cleaned query changes nothing.
pub proof fn lemma_cleaned_idempotent(s: Seq<char>)
    ensures
        cleaned(cleaned(s)) == cleaned(s),
    decreases s.len(),
{
    if s.len() > 0 {
        lemma_cleaned_idempotent(s.drop_last());
        let r = cleaned(s.drop_last());
        if query_char(s.last()) {
            assert(r.push(s.last()).drop_last() =~= r);
        }
    }
}

} // verus!
