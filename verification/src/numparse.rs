//! Splitting text on a separator and reading decimal integers the way
//! `str::split` and `str::parse` do.

use vstd::prelude::*;
use crate::text::{chars_of, trim, trim_chars};

verus! {

/// The pieces of `s` between occurrences of `sep`, as `(pieces before the
/// last separator, piece after it)`.
pub open spec fn split_scan(s: Seq<char>, sep: char) -> (Seq<Seq<char>>, Seq<char>)
    decreases s.len(),
{
    if s.len() == 0 {
        (Seq::empty(), Seq::empty())
    } else {
        let (done, cur) = split_scan(s.drop_last(), sep);
        if s.last() == sep {
            (done.push(cur), Seq::empty())
        } else {
            (done, cur.push(s.last()))
        }
    }
}

/// `s.split(sep)`: the pieces between separators, empty ones included.
pub open spec fn split_on(s: Seq<char>, sep: char) -> Seq<Seq<char>> {
    split_scan(s, sep).0.push(split_scan(s, sep).1)
}

/// Splits `s` on `sep`.
pub fn split_char(s: &[char], sep: char) -> (r: Vec<Vec<char>>)
    ensures
        r@.map_values(|p: Vec<char>| p@) == split_on(s@, sep),
{
    let mut done: Vec<Vec<char>> = Vec::new();
    let mut cur: Vec<char> = Vec::new();
    let mut i: usize = 0;
    while i < s.len()
        invariant
            i <= s.len(),
            (done@.map_values(|p: Vec<char>| p@), cur@) == split_scan(s@.take(i as int), sep),
        decreases s.len() - i,
    {
        assert(s@.take(i as int + 1).drop_last() =~= s@.take(i as int));
        let ghost before = done@.map_values(|p: Vec<char>| p@);
        if s[i] == sep {
            let piece = cur;
            let ghost pv = piece@;
            done.push(piece);
            cur = Vec::new();
            assert(done@.map_values(|p: Vec<char>| p@) =~= before.push(pv));
        } else {
            cur.push(s[i]);
        }
        i = i + 1;
    }
    assert(s@.take(s.len() as int) =~= s@);
    let ghost before = done@.map_values(|p: Vec<char>| p@);
    let ghost cv = cur@;
    done.push(cur);
    assert(done@.map_values(|p: Vec<char>| p@) =~= before.push(cv));
    done
}

pub open spec fn is_digit(c: char) -> bool {
    '0' <= c && c <= '9'
}

/// All characters are decimal digits.
pub open spec fn all_digits(s: Seq<char>) -> bool {
    forall|i: int| 0 <= i < s.len() ==> is_digit(#[trigger] s[i])
}

/// The number written by the decimal digits `s`.
pub open spec fn digits_value(s: Seq<char>) -> nat
    decreases s.len(),
{
    if s.len() == 0 {
        0
    } else {
        digits_value(s.drop_last()) * 10 + ((s.last() as u32) - ('0' as u32)) as nat
    }
}

/// The value of unsigned decimal text no larger than `max`: an optional
/// `+`, then one or more digits.
pub open spec fn unsigned_value(s: Seq<char>, max: nat) -> Option<nat> {
    let body = if s.len() > 0 && s[0] == '+' { s.drop_first() } else { s };
    if body.len() > 0 && all_digits(body) && digits_value(body) <= max {
        Some(digits_value(body))
    } else {
        None
    }
}

/// `s.parse::<u64>()`.
pub open spec fn parse_u64(s: Seq<char>) -> Option<u64> {
    match unsigned_value(s, u64::MAX as nat) {
        Some(v) => Some(v as u64),
        None => None,
    }
}

/// `s.parse::<u16>()`.
pub open spec fn parse_u16(s: Seq<char>) -> Option<u16> {
    match unsigned_value(s, u16::MAX as nat) {
        Some(v) => Some(v as u16),
        None => None,
    }
}

/// `s.parse::<i64>()`: an optional sign, then one or more digits, within
/// the range of `i64`.
pub open spec fn parse_i64(s: Seq<char>) -> Option<i64> {
    if s.len() > 0 && s[0] == '-' {
        let body = s.drop_first();
        if body.len() > 0 && all_digits(body) && digits_value(body) <= 0x8000_0000_0000_0000 {
            Some((-(digits_value(body) as int)) as i64)
        } else {
            None
        }
    } else {
        match unsigned_value(s, i64::MAX as nat) {
            Some(v) => Some(v as i64),
            None => None,
        }
    }
}

proof fn lemma_digits_prefix_mono(s: Seq<char>, j: int, k: int)
    requires
        0 <= j <= k <= s.len(),
    ensures
        digits_value(s.take(j)) <= digits_value(s.take(k)),
    decreases k - j,
{
    if j < k {
        lemma_digits_prefix_mono(s, j, k - 1);
        assert(s.take(k).drop_last() =~= s.take(k - 1));
    }
}

/// The value of the digits `s[from..]` when they are all digits and the
/// value is at most `max`.
fn digits_upto(s: &[char], from: usize, max: u64) -> (r: Option<u64>)
    requires
        from <= s.len(),
    ensures
        match r {
            Some(v) => all_digits(s@.skip(from as int)) && digits_value(s@.skip(from as int)) <= max
                && v == digits_value(s@.skip(from as int)),
            None => !(all_digits(s@.skip(from as int)) && digits_value(s@.skip(from as int)) <= max),
        },
{
    let ghost body = s@.skip(from as int);
    let mut v: u64 = 0;
    let mut i = from;
    while i < s.len()
        invariant
            from <= i <= s.len(),
            body == s@.skip(from as int),
            all_digits(body.take(i - from)),
            v == digits_value(body.take(i - from)),
            v <= max,
        decreases s.len() - i,
    {
        let c = s[i];
        assert(body[i - from] == c);
        if !('0' <= c && c <= '9') {
            assert(!all_digits(body));
            return None;
        }
        let d = (c as u32) - ('0' as u32);
        assert(body.take(i - from + 1).drop_last() =~= body.take(i - from));
        assert(d <= 9) by {
            assert(('9' as u32) - ('0' as u32) == 9);
        }
        if d as u64 > max || v > (max - d as u64) / 10 {
            proof {
                assert(digits_value(body.take(i - from + 1)) == v * 10 + d);
                assert(v * 10 + d > max) by (nonlinear_arith)
                    requires d > max || v > (max - d) / 10, v >= 0;
                lemma_digits_prefix_mono(body, i - from + 1, body.len() as int);
                assert(body.take(body.len() as int) =~= body);
            }
            return None;
        }
        proof {
            assert(v * 10 + d <= max) by (nonlinear_arith)
                requires v <= (max - d) / 10, d <= max;
        }
        v = v * 10 + d as u64;
        i = i + 1;
    }
    assert(body.take(s.len() - from) =~= body);
    Some(v)
}

fn unsigned_upto(s: &[char], max: u64) -> (r: Option<u64>)
    ensures
        match r {
            Some(v) => unsigned_value(s@, max as nat) == Some(v as nat),
            None => unsigned_value(s@, max as nat) is None,
        },
{
    let from: usize = if s.len() > 0 && s[0] == '+' { 1 } else { 0 };
    assert(s@.skip(0) =~= s@);
    assert(s@.skip(1) =~= s@.drop_first());
    if from == s.len() {
        return None;
    }
    digits_upto(s, from, max)
}

/// Reads text as `str::parse::<u64>` does.
pub fn parse_u64_chars(s: &[char]) -> (r: Option<u64>)
    ensures
        r == parse_u64(s@),
{
    unsigned_upto(s, u64::MAX)
}

/// Reads text as `str::parse::<u16>` does.
pub fn parse_u16_chars(s: &[char]) -> (r: Option<u16>)
    ensures
        r == parse_u16(s@),
{
    match unsigned_upto(s, 65535) {
        Some(v) => Some(v as u16),
        None => None,
    }
}

/// Reads text as `str::parse::<i64>` does.
pub fn parse_i64_chars(s: &[char]) -> (r: Option<i64>)
    ensures
        r == parse_i64(s@),
{
    if s.len() > 0 && s[0] == '-' {
        assert(s@.skip(1) =~= s@.drop_first());
        if s.len() == 1 {
            return None;
        }
        match digits_upto(s, 1, 0x8000_0000_0000_0000) {
            Some(v) => {
                if v == 0x8000_0000_0000_0000 {
                    Some(i64::MIN)
                } else {
                    Some(-(v as i64))
                }
            },
            None => None,
        }
    } else {
        match unsigned_upto(s, 0x7fff_ffff_ffff_ffff) {
            Some(v) => Some(v as i64),
            None => None,
        }
    }
}

/// The numbers read from the comma-separated pieces of a list, each
/// trimmed; pieces that do not read are skipped.
pub open spec fn id_values_i64(parts: Seq<Seq<char>>) -> Seq<i64>
    decreases parts.len(),
{
    if parts.len() == 0 {
        Seq::empty()
    } else {
        let rest = id_values_i64(parts.drop_last());
        match parse_i64(trim(parts.last())) {
            Some(v) => rest.push(v),
            None => rest,
        }
    }
}

/// As `id_values_i64`, for unsigned IDs.
pub open spec fn id_values_u64(parts: Seq<Seq<char>>) -> Seq<u64>
    decreases parts.len(),
{
    if parts.len() == 0 {
        Seq::empty()
    } else {
        let rest = id_values_u64(parts.drop_last());
        match parse_u64(trim(parts.last())) {
            Some(v) => rest.push(v),
            None => rest,
        }
    }
}

/// The IDs of a comma-separated list ("1, -2,x" gives 1 and -2).
pub fn parse_id_list_i64(text: &str) -> (r: Vec<i64>)
    ensures
        r@ == id_values_i64(split_on(text@, ',')),
{
    let cs = chars_of(text);
    let parts = split_char(cs.as_slice(), ',');
    let ghost pv = parts@.map_values(|p: Vec<char>| p@);
    let mut r: Vec<i64> = Vec::new();
    let mut i: usize = 0;
    while i < parts.len()
        invariant
            i <= parts.len(),
            pv == parts@.map_values(|p: Vec<char>| p@),
            r@ == id_values_i64(pv.take(i as int)),
        decreases parts.len() - i,
    {
        assert(pv.take(i as int + 1).drop_last() =~= pv.take(i as int));
        assert(pv[i as int] == parts@[i as int]@);
        let t = trim_chars(parts[i].as_slice());
        match parse_i64_chars(t.as_slice()) {
            Some(v) => r.push(v),
            None => {},
        }
        i = i + 1;
    }
    assert(pv.take(parts.len() as int) =~= pv);
    r
}

/// The unsigned IDs of a comma-separated list.
pub fn parse_id_list_u64(text: &str) -> (r: Vec<u64>)
    ensures
        r@ == id_values_u64(split_on(text@, ',')),
{
    let cs = chars_of(text);
    let parts = split_char(cs.as_slice(), ',');
    let ghost pv = parts@.map_values(|p: Vec<char>| p@);
    let mut r: Vec<u64> = Vec::new();
    let mut i: usize = 0;
    while i < parts.len()
        invariant
            i <= parts.len(),
            pv == parts@.map_values(|p: Vec<char>| p@),
            r@ == id_values_u64(pv.take(i as int)),
        decreases parts.len() - i,
    {
        assert(pv.take(i as int + 1).drop_last() =~= pv.take(i as int));
        assert(pv[i as int] == parts@[i as int]@);
        let t = trim_chars(parts[i].as_slice());
        match parse_u64_chars(t.as_slice()) {
            Some(v) => r.push(v),
            None => {},
        }
        i = i + 1;
    }
    assert(pv.take(parts.len() as int) =~= pv);
    r
}

/// Reading back the decimal text of a number gives the number:
/// `n.to_string().parse::<u64>()` is `Ok(n)`.
pub proof fn lemma_decimal_roundtrip(n: u64)
    ensures
        parse_u64(crate::text::decimal(n as nat)) == Some(n),
{
    lemma_decimal_digits(n as nat);
    let d = crate::text::decimal(n as nat);
    assert(d[0] != '+') by {
        assert(is_digit(d[0]));
    }
}

proof fn lemma_decimal_digits(n: nat)
    ensures
        crate::text::decimal(n).len() > 0,
        all_digits(crate::text::decimal(n)),
        digits_value(crate::text::decimal(n)) == n,
    decreases n,
{
    let d = crate::text::decimal(n);
    if n < 10 {
        assert(d.drop_last() =~= Seq::<char>::empty());
        assert(((('0' as u32) + n) as char) as u32 == ('0' as u32) + n);
        assert(d.last() as u32 == ('0' as u32) + n);
        assert(digits_value(d) == digits_value(d.drop_last()) * 10 + ((d.last() as u32) - ('0' as u32)) as nat);
        assert(digits_value(d.drop_last()) == 0);
    } else {
        lemma_decimal_digits(n / 10);
        let h = crate::text::decimal(n / 10);
        assert(d == h.push(crate::text::digit_char(n % 10)));
        assert(d.drop_last() =~= h);
        assert(((('0' as u32) + (n % 10)) as char) as u32 == ('0' as u32) + n % 10);
        assert(d.last() as u32 == ('0' as u32) + n % 10);
        assert(digits_value(d) == digits_value(h) * 10 + ((d.last() as u32) - ('0' as u32)) as nat);
        assert((n / 10) * 10 + n % 10 == n);
        assert forall|i: int| 0 <= i < d.len() implies is_digit(#[trigger] d[i]) by {
            if i < h.len() {
                assert(d[i] == h[i]);
            }
        }
    }
}

} // verus!
