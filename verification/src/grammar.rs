//! Grammar-constrained JSON decoding.
//!
//! Each vocabulary token is analysed once for its JSON structure (brace and
//! bracket balance, quote parity, colon, comma, white space).  During
//! generation a small state machine tracks nesting depth and whether the
//! output is inside a string, so that tokens which would break the JSON
//! structure can be masked out.

use vstd::prelude::*;
use crate::text::{all_ws, chars_of, is_whitespace, is_ws};

verus! {

/// Pre-computed JSON properties of one vocabulary token.
#[derive(Debug, Clone, Copy, PartialEq, Eq, Structural)]
pub struct TokenJsonProps {
    /// +1 for each `{`, -1 for each `}` outside strings.
    pub brace_delta: i32,
    /// +1 for each `[`, -1 for each `]` outside strings.
    pub bracket_delta: i32,
    /// The token holds an odd number of unescaped quotes.
    pub quote_toggle: bool,
    pub is_colon: bool,
    pub is_comma: bool,
    /// The token is empty or white space only.
    pub is_whitespace_only: bool,
}

/// JSON structure state during generation.
#[derive(Debug, Clone, Copy, PartialEq, Eq, Structural)]
pub struct JsonState {
    pub brace_depth: i32,
    pub bracket_depth: i32,
    pub in_string: bool,
    pub expect_value: bool,
    pub started: bool,
    pub completed: bool,
}

/// The state before any token: all zero / false.
pub open spec fn initial_state() -> JsonState {
    JsonState {
        brace_depth: 0,
        bracket_depth: 0,
        in_string: false,
        expect_value: false,
        started: false,
        completed: false,
    }
}

/// Scanner state while analysing a token: inside a string, previous char
/// an escaping backslash, and the properties so far.
pub ghost struct Scan {
    pub in_str: bool,
    pub prev_escape: bool,
    pub brace: int,
    pub bracket: int,
    pub quote_toggle: bool,
    pub is_colon: bool,
    pub is_comma: bool,
}

pub open spec fn scan_start() -> Scan {
    Scan {
        in_str: false,
        prev_escape: false,
        brace: 0,
        bracket: 0,
        quote_toggle: false,
        is_colon: false,
        is_comma: false,
    }
}

/// One character step of the token scanner.
pub open spec fn scan_step(st: Scan, ch: char) -> Scan {
    if st.in_str {
        let closes = ch == '"' && !st.prev_escape;
        Scan {
            in_str: !closes,
            prev_escape: ch == '\\' && !st.prev_escape,
            quote_toggle: if closes { !st.quote_toggle } else { st.quote_toggle },
            ..st
        }
    } else if ch == '{' {
        Scan { brace: st.brace + 1, ..st }
    } else if ch == '}' {
        Scan { brace: st.brace - 1, ..st }
    } else if ch == '[' {
        Scan { bracket: st.bracket + 1, ..st }
    } else if ch == ']' {
        Scan { bracket: st.bracket - 1, ..st }
    } else if ch == '"' {
        Scan { in_str: true, quote_toggle: !st.quote_toggle, ..st }
    } else if ch == ':' {
        Scan { is_colon: true, ..st }
    } else if ch == ',' {
        Scan { is_comma: true, ..st }
    } else {
        st
    }
}

/// The scanner state after reading all of `s`.
pub open spec fn scan(s: Seq<char>) -> Scan
    decreases s.len(),
{
    if s.len() == 0 {
        scan_start()
    } else {
        scan_step(scan(s.drop_last()), s.last())
    }
}

proof fn lemma_scan_bounds(s: Seq<char>)
    ensures
        -s.len() <= scan(s).brace <= s.len(),
        -s.len() <= scan(s).bracket <= s.len(),
    decreases s.len(),
{
    if s.len() > 0 {
        lemma_scan_bounds(s.drop_last());
    }
}

/// The JSON properties of a token with characters `s`.
pub open spec fn token_props_of(s: Seq<char>) -> TokenJsonProps {
    let st = scan(s);
    TokenJsonProps {
        brace_delta: st.brace as i32,
        bracket_delta: st.bracket as i32,
        quote_toggle: st.quote_toggle,
        is_colon: st.is_colon,
        is_comma: st.is_comma,
        is_whitespace_only: all_ws(s),
    }
}

/// Whether a token with these properties keeps the JSON structure valid in
/// state `st`.
pub open spec fn spec_allowed(st: JsonState, p: TokenJsonProps) -> bool {
    if st.in_string {
        true
    } else if !st.started {
        p.brace_delta > 0 || p.bracket_delta > 0
    } else {
        st.brace_depth + p.brace_delta >= 0 && st.bracket_depth + p.bracket_delta >= 0
    }
}

/// The state after accepting a token with properties `p`.
pub open spec fn spec_accept(st: JsonState, p: TokenJsonProps) -> JsonState {
    let brace = (st.brace_depth + p.brace_delta) as i32;
    let bracket = (st.bracket_depth + p.bracket_delta) as i32;
    let in_string = if p.quote_toggle { !st.in_string } else { st.in_string };
    let started = st.started || p.brace_delta > 0 || p.bracket_delta > 0;
    let completed = st.completed || (started && brace == 0 && bracket == 0 && !in_string);
    JsonState {
        brace_depth: brace,
        bracket_depth: bracket,
        in_string,
        expect_value: st.expect_value,
        started,
        completed,
    }
}

/// Accepting a token with properties `p` in state `st` keeps the depths
/// within i32.
pub open spec fn accept_fits(st: JsonState, p: TokenJsonProps) -> bool {
    i32::MIN <= st.brace_depth + p.brace_delta <= i32::MAX
        && i32::MIN <= st.bracket_depth + p.bracket_delta <= i32::MAX
}

/// JSON grammar state machine for constrained decoding.
#[derive(Debug, Clone)]
pub struct JsonGrammar {
    /// Properties of each vocabulary token, by token id.
    pub token_props: Vec<TokenJsonProps>,
    /// Current grammar state.
    pub state: JsonState,
}

/// Analyses one token.
fn analyze_token(token: &str) -> (r: TokenJsonProps)
    requires
        token@.len() <= i32::MAX,
    ensures
        r == token_props_of(token@),
{
    let cs = chars_of(token);
    let mut in_str = false;
    let mut prev_escape = false;
    let mut brace: i32 = 0;
    let mut bracket: i32 = 0;
    let mut quote_toggle = false;
    let mut is_colon = false;
    let mut is_comma = false;
    let mut all_white = true;
    let mut i: usize = 0;
    while i < cs.len()
        invariant
            i <= cs.len(),
            cs@ == token@,
            cs.len() <= i32::MAX,
            scan(cs@.take(i as int)) == (Scan {
                in_str, prev_escape, brace: brace as int, bracket: bracket as int,
                quote_toggle, is_colon, is_comma,
            }),
            all_white == all_ws(cs@.take(i as int)),
        decreases cs.len() - i,
    {
        let ch = cs[i];
        proof {
            assert(cs@.take(i as int + 1).drop_last() =~= cs@.take(i as int));
            lemma_scan_bounds(cs@.take(i as int));
        }
        if in_str {
            let closes = ch == '"' && !prev_escape;
            if closes {
                in_str = false;
                quote_toggle = !quote_toggle;
            }
            prev_escape = ch == '\\' && !prev_escape;
        } else if ch == '{' {
            brace = brace + 1;
        } else if ch == '}' {
            brace = brace - 1;
        } else if ch == '[' {
            bracket = bracket + 1;
        } else if ch == ']' {
            bracket = bracket - 1;
        } else if ch == '"' {
            in_str = true;
            quote_toggle = !quote_toggle;
        } else if ch == ':' {
            is_colon = true;
        } else if ch == ',' {
            is_comma = true;
        }
        let w = is_whitespace(ch);
        proof {
            let t1 = cs@.take(i as int + 1);
            if all_white && w {
                assert forall|j: int| 0 <= j < t1.len() implies #[trigger] is_ws(t1[j]) by {
                    if j < i {
                        assert(t1[j] == cs@.take(i as int)[j]);
                    }
                }
            }
            if !w {
                assert(!is_ws(t1[i as int]));
            }
            if !all_white {
                let k = choose|k: int| 0 <= k < i && !is_ws(#[trigger] cs@.take(i as int)[k]);
                assert(!is_ws(t1[k]));
            }
        }
        all_white = all_white && w;
        i = i + 1;
    }
    proof {
        assert(cs@.take(cs.len() as int) =~= cs@);
    }
    TokenJsonProps {
        brace_delta: brace,
        bracket_delta: bracket,
        quote_toggle,
        is_colon,
        is_comma,
        is_whitespace_only: all_white,
    }
}

impl JsonGrammar {
    /// Analyses every vocabulary token (once, at load time).
    pub fn new(vocab: &[String]) -> (r: Self)
        requires
            forall|i: int| 0 <= i < vocab.len() ==> (#[trigger] vocab@[i])@.len() <= i32::MAX,
        ensures
            r.token_props@.len() == vocab@.len(),
            forall|i: int| 0 <= i < vocab.len()
                ==> #[trigger] r.token_props@[i] == token_props_of(vocab@[i]@),
            r.state == initial_state(),
    {
        let mut props: Vec<TokenJsonProps> = Vec::new();
        let mut i: usize = 0;
        while i < vocab.len()
            invariant
                i <= vocab.len(),
                forall|k: int| 0 <= k < vocab.len() ==> (#[trigger] vocab@[k])@.len() <= i32::MAX,
                props@.len() == i,
                forall|k: int| 0 <= k < i ==> #[trigger] props@[k] == token_props_of(vocab@[k]@),
            decreases vocab.len() - i,
        {
            let p = analyze_token(vocab[i].as_str());
            props.push(p);
            i = i + 1;
        }
        JsonGrammar {
            token_props: props,
            state: JsonState {
                brace_depth: 0,
                bracket_depth: 0,
                in_string: false,
                expect_value: false,
                started: false,
                completed: false,
            },
        }
    }

    /// Whether a token with properties `props` keeps the structure valid in
    /// the current state.
    pub fn is_token_allowed(&self, props: &TokenJsonProps) -> (r: bool)
        ensures
            r == spec_allowed(self.state, *props),
    {
        if self.state.in_string {
            return true;
        }
        if !self.state.started {
            return props.brace_delta > 0 || props.bracket_delta > 0;
        }
        let new_brace = self.state.brace_depth as i64 + props.brace_delta as i64;
        let new_bracket = self.state.bracket_depth as i64 + props.bracket_delta as i64;
        if new_brace < 0 || new_bracket < 0 {
            return false;
        }
        true
    }

    /// For each token id, whether the token may be generated next; once the
    /// JSON is complete every token is allowed (so that end-of-sequence can
    /// follow).
    pub fn allowed_mask(&self) -> (r: Vec<bool>)
        ensures
            r@.len() == self.token_props@.len(),
            forall|i: int| 0 <= i < r@.len() ==> #[trigger] r@[i]
                == (self.state.completed || spec_allowed(self.state, self.token_props@[i])),
    {
        let mut r: Vec<bool> = Vec::new();
        let mut i: usize = 0;
        while i < self.token_props.len()
            invariant
                i <= self.token_props.len(),
                r@.len() == i,
                forall|k: int| 0 <= k < i ==> #[trigger] r@[k]
                    == (self.state.completed || spec_allowed(self.state, self.token_props@[k])),
            decreases self.token_props.len() - i,
        {
            let a = self.state.completed || self.is_token_allowed(&self.token_props[i]);
            r.push(a);
            i = i + 1;
        }
        r
    }

    /// Updates the state after token `token_id` was chosen; ids beyond the
    /// vocabulary change nothing.
    pub fn accept_token(&mut self, token_id: usize)
        requires
            token_id < old(self).token_props@.len()
                ==> accept_fits(old(self).state, old(self).token_props@[token_id as int]),
        ensures
            final(self).token_props == old(self).token_props,
            final(self).state == if token_id < old(self).token_props@.len() {
                spec_accept(old(self).state, old(self).token_props@[token_id as int])
            } else {
                old(self).state
            },
    {
        if token_id >= self.token_props.len() {
            return;
        }
        let props = self.token_props[token_id];
        self.state.brace_depth = self.state.brace_depth + props.brace_delta;
        self.state.bracket_depth = self.state.bracket_depth + props.bracket_delta;
        if props.quote_toggle {
            self.state.in_string = !self.state.in_string;
        }
        if !self.state.started && (props.brace_delta > 0 || props.bracket_delta > 0) {
            self.state.started = true;
        }
        if self.state.started && self.state.brace_depth == 0 && self.state.bracket_depth == 0
            && !self.state.in_string {
            self.state.completed = true;
        }
    }

    /// Whether the JSON value is complete.
    pub fn is_complete(&self) -> (r: bool)
        ensures
            r == self.state.completed,
    {
        self.state.completed
    }

    /// Resets the state for a new generation; the token analysis stays.
    pub fn reset(&mut self)
        ensures
            final(self).token_props == old(self).token_props,
            final(self).state == initial_state(),
    {
        self.state = JsonState {
            brace_depth: 0,
            bracket_depth: 0,
            in_string: false,
            expect_value: false,
            started: false,
            completed: false,
        };
    }
}


/// Once the JSON value is complete it stays complete, whatever token comes
/// next.
pub proof fn lemma_completion_sticky(st: JsonState, p: TokenJsonProps)
    requires
        st.completed,
    ensures
        spec_accept(st, p).completed,
{
}

/// Before anything is generated, exactly the tokens that open an object
/// or an array are allowed.
pub proof fn lemma_start_needs_opener(p: TokenJsonProps)
    ensures
        spec_allowed(initial_state(), p) <==> (p.brace_delta > 0 || p.bracket_delta > 0),
{
}

/// Outside a string, a token that would close more than is open is never
/// allowed once generation has started.
pub proof fn lemma_no_overclose(st: JsonState, p: TokenJsonProps)
    requires
        st.started,
        !st.in_string,
        st.brace_depth + p.brace_delta < 0 || st.bracket_depth + p.bracket_delta < 0,
    ensures
        !spec_allowed(st, p),
{
}

/// Accepting a token never un-starts generation.
pub proof fn lemma_started_sticky(st: JsonState, p: TokenJsonProps)
    requires
        st.started,
    ensures
        spec_accept(st, p).started,
{
}

/// The state after `accept_token` is called with these token ids in order,
/// from `st`, on a grammar whose token analysis is `props`: an id beyond
/// the vocabulary changes nothing.
pub open spec fn after_tokens(props: Seq<TokenJsonProps>, st: JsonState, ids: Seq<usize>) -> JsonState
    decreases ids.len(),
{
    if ids.len() == 0 {
        st
    } else {
        let prev = after_tokens(props, st, ids.drop_last());
        if ids.last() < props.len() { spec_accept(prev, props[ids.last() as int]) } else { prev }
    }
}

/// A state where a started value is closed: no open brace, bracket or
/// string.
pub open spec fn closed_value(st: JsonState) -> bool {
    st.started && st.brace_depth == 0 && st.bracket_depth == 0 && !st.in_string
}

/// Once complete, a grammar stays complete over any later calls of
/// `accept_token`.
pub proof fn lemma_complete_stays(props: Seq<TokenJsonProps>, st: JsonState, ids: Seq<usize>)
    requires
        st.completed,
    ensures
        after_tokens(props, st, ids).completed,
    decreases ids.len(),
{
    if ids.len() > 0 {
        lemma_complete_stays(props, st, ids.drop_last());
    }
}

/// From a new or reset grammar, after any sequence of `accept_token` calls,
/// `is_complete` holds exactly when, after one of the calls with an id in
/// the vocabulary, the value stood started and closed (no open brace,
/// bracket or string).  So it is false right after `new` or `reset`.
pub proof fn lemma_complete_iff_closed_once(props: Seq<TokenJsonProps>, ids: Seq<usize>)
    ensures
        !initial_state().completed,
        after_tokens(props, initial_state(), ids).completed <==> exists|k: int|
            1 <= k <= ids.len() && ids[k - 1] < props.len()
            && #[trigger] closed_value(after_tokens(props, initial_state(), ids.take(k))),
    decreases ids.len(),
{
    let init = initial_state();
    if ids.len() > 0 {
        let n = ids.len() as int;
        let prev = ids.drop_last();
        lemma_complete_iff_closed_once(props, prev);
        assert(ids.take(n) =~= ids);
        assert forall|k: int| 1 <= k <= n - 1 implies #[trigger] prev.take(k) == ids.take(k) && prev[k - 1] == ids[k - 1] by {
            assert(prev.take(k) =~= ids.take(k));
        }
        if after_tokens(props, init, ids).completed {
            if !(ids[n - 1] < props.len() && closed_value(after_tokens(props, init, ids))) {
                assert(after_tokens(props, init, prev).completed);
                let k = choose|k: int| 1 <= k <= prev.len() && prev[k - 1] < props.len()
                    && #[trigger] closed_value(after_tokens(props, init, prev.take(k)));
                assert(prev.take(k) == ids.take(k) && prev[k - 1] == ids[k - 1]);
                assert(closed_value(after_tokens(props, init, ids.take(k))));
            } else {
                assert(closed_value(after_tokens(props, init, ids.take(n))));
            }
        }
        if exists|k: int| 1 <= k <= ids.len() && ids[k - 1] < props.len()
            && #[trigger] closed_value(after_tokens(props, init, ids.take(k))) {
            let k = choose|k: int| 1 <= k <= ids.len() && ids[k - 1] < props.len()
                && #[trigger] closed_value(after_tokens(props, init, ids.take(k)));
            if k < n {
                assert(prev.take(k) == ids.take(k) && prev[k - 1] == ids[k - 1]);
                assert(closed_value(after_tokens(props, init, prev.take(k))));
                assert(after_tokens(props, init, prev).completed);
                lemma_complete_stays(props, after_tokens(props, init, prev), seq![ids.last()]);
                assert(seq![ids.last()].drop_last() =~= Seq::<usize>::empty());
            } else {
                assert(closed_value(after_tokens(props, init, ids)));
            }
        }
    }
}


/// How many times `c` occurs in `s`.
pub open spec fn count_char(s: Seq<char>, c: char) -> int
    decreases s.len(),
{
    if s.len() == 0 {
        0
    } else {
        count_char(s.drop_last(), c) + if s.last() == c { 1int } else { 0int }
    }
}

proof fn lemma_count_bounds(s: Seq<char>, c: char)
    ensures
        0 <= count_char(s, c) <= s.len(),
    decreases s.len(),
{
    if s.len() > 0 {
        lemma_count_bounds(s.drop_last(), c);
    }
}

proof fn lemma_scan_quote_free(s: Seq<char>)
    requires
        !s.contains('"'),
    ensures
        !scan(s).in_str,
        !scan(s).quote_toggle,
        scan(s).brace == count_char(s, '{') - count_char(s, '}'),
        scan(s).bracket == count_char(s, '[') - count_char(s, ']'),
        scan(s).is_colon == s.contains(':'),
        scan(s).is_comma == s.contains(','),
    decreases s.len(),
{
    if s.len() > 0 {
        let p = s.drop_last();
        assert(!p.contains('"')) by {
            if p.contains('"') {
                let k = choose|k: int| 0 <= k < p.len() && p[k] == '"';
                assert(s[k] == '"');
            }
        }
        lemma_scan_quote_free(p);
        assert(s.last() != '"') by {
            assert(s[s.len() - 1] == s.last());
        }
        assert(s.contains(':') == (p.contains(':') || s.last() == ':')) by {
            if s.contains(':') {
                let k = choose|k: int| 0 <= k < s.len() && s[k] == ':';
                if k < s.len() - 1 {
                    assert(p[k] == ':');
                }
            }
            if p.contains(':') {
                let k = choose|k: int| 0 <= k < p.len() && p[k] == ':';
                assert(s[k] == ':');
            }
            if s.last() == ':' {
                assert(s[s.len() - 1] == ':');
            }
        }
        assert(s.contains(',') == (p.contains(',') || s.last() == ',')) by {
            if s.contains(',') {
                let k = choose|k: int| 0 <= k < s.len() && s[k] == ',';
                if k < s.len() - 1 {
                    assert(p[k] == ',');
                }
            }
            if p.contains(',') {
                let k = choose|k: int| 0 <= k < p.len() && p[k] == ',';
                assert(s[k] == ',');
            }
            if s.last() == ',' {
                assert(s[s.len() - 1] == ',');
            }
        }
    } else {
        assert(!s.contains(':') && !s.contains(','));
    }
}

/// A token without quotes has no string in it: its brace and bracket
/// deltas are its number of '{' less its number of '}', and of '[' less ']',
/// it toggles no string, and it is a colon or comma token exactly when it
/// holds a ':' or a ','.  So the token "]" closes one bracket.
pub proof fn lemma_quote_free_token(s: Seq<char>)
    requires
        !s.contains('"'),
        s.len() <= i32::MAX,
    ensures
        token_props_of(s).brace_delta == count_char(s, '{') - count_char(s, '}'),
        token_props_of(s).bracket_delta == count_char(s, '[') - count_char(s, ']'),
        !token_props_of(s).quote_toggle,
        token_props_of(s).is_colon == s.contains(':'),
        token_props_of(s).is_comma == s.contains(','),
{
    lemma_scan_quote_free(s);
    lemma_count_bounds(s, '{');
    lemma_count_bounds(s, '}');
    lemma_count_bounds(s, '[');
    lemma_count_bounds(s, ']');
}

proof fn lemma_scan_no_backslash(s: Seq<char>)
    requires
        !s.contains('\\'),
    ensures
        !scan(s).prev_escape,
        scan(s).in_str == (count_char(s, '"') % 2 == 1),
        scan(s).quote_toggle == (count_char(s, '"') % 2 == 1),
    decreases s.len(),
{
    if s.len() > 0 {
        let p = s.drop_last();
        assert(!p.contains('\\')) by {
            if p.contains('\\') {
                let k = choose|k: int| 0 <= k < p.len() && p[k] == '\\';
                assert(s[k] == '\\');
            }
        }
        assert(s.last() != '\\') by {
            assert(s[s.len() - 1] == s.last());
        }
        lemma_scan_no_backslash(p);
    }
}

/// A token without backslashes toggles the string state exactly when it
/// holds an odd number of quotes.
pub proof fn lemma_quote_parity(s: Seq<char>)
    requires
        !s.contains('\\'),
    ensures
        token_props_of(s).quote_toggle == (count_char(s, '"') % 2 == 1),
{
    lemma_scan_no_backslash(s);
}

/// From the start, a token without quotes that opens a brace or a bracket,
/// followed by one without quotes that closes exactly what is open, gives a
/// complete value: "[" then "]" completes, and so does "{" then "}".
pub proof fn lemma_open_then_close_completes(a: Seq<char>, b: Seq<char>)
    requires
        !a.contains('"'),
        !b.contains('"'),
        a.len() <= 1000,
        b.len() <= 1000,
        count_char(a, '{') - count_char(a, '}') > 0 || count_char(a, '[') - count_char(a, ']') > 0,
        count_char(a, '{') - count_char(a, '}') + count_char(b, '{') - count_char(b, '}') == 0,
        count_char(a, '[') - count_char(a, ']') + count_char(b, '[') - count_char(b, ']') == 0,
    ensures
        spec_accept(spec_accept(initial_state(), token_props_of(a)), token_props_of(b)).completed,
{
    lemma_quote_free_token(a);
    lemma_quote_free_token(b);
    lemma_count_bounds(a, '{');
    lemma_count_bounds(a, '}');
    lemma_count_bounds(a, '[');
    lemma_count_bounds(a, ']');
    lemma_count_bounds(b, '{');
    lemma_count_bounds(b, '}');
    lemma_count_bounds(b, '[');
    lemma_count_bounds(b, ']');
}


proof fn lemma_scan_inside_string(x: Seq<char>, st: Scan)
    requires
        st.in_str,
        !st.prev_escape,
        !x.contains('"'),
        !x.contains('\\'),
    ensures
        ({
            let r = scan_from(st, x);
            &&& r.in_str && !r.prev_escape
            &&& r.brace == st.brace && r.bracket == st.bracket
            &&& r.quote_toggle == st.quote_toggle
            &&& r.is_colon == st.is_colon && r.is_comma == st.is_comma
        }),
    decreases x.len(),
{
    if x.len() > 0 {
        let p = x.drop_last();
        assert(!p.contains('"') && !p.contains('\\')) by {
            if p.contains('"') {
                let k = choose|k: int| 0 <= k < p.len() && p[k] == '"';
                assert(x[k] == '"');
            }
            if p.contains('\\') {
                let k = choose|k: int| 0 <= k < p.len() && p[k] == '\\';
                assert(x[k] == '\\');
            }
        }
        assert(x[x.len() - 1] == x.last());
        lemma_scan_inside_string(p, st);
    }
}

/// The scanner state after reading `x` from `st`.
pub open spec fn scan_from(st: Scan, x: Seq<char>) -> Scan
    decreases x.len(),
{
    if x.len() == 0 { st } else { scan_step(scan_from(st, x.drop_last()), x.last()) }
}

proof fn lemma_scan_split(a: Seq<char>, b: Seq<char>)
    ensures
        scan(a + b) == scan_from(scan(a), b),
    decreases b.len(),
{
    if b.len() == 0 {
        assert(a + b =~= a);
    } else {
        lemma_scan_split(a, b.drop_last());
        assert((a + b).drop_last() =~= a + b.drop_last());
        assert((a + b).last() == b.last());
    }
}

/// Braces, brackets, colons and commas inside a string do not count: a
/// token that opens a string and holds no further quote or backslash
/// changes no depth, is neither a colon nor a comma token, and toggles the
/// string state; with an escaped quote after it the string stays open.
pub proof fn lemma_string_content_ignored(x: Seq<char>)
    requires
        !x.contains('"'),
        !x.contains('\\'),
        x.len() + 3 <= i32::MAX,
    ensures
        token_props_of(seq!['"'] + x).brace_delta == 0,
        token_props_of(seq!['"'] + x).bracket_delta == 0,
        token_props_of(seq!['"'] + x).quote_toggle,
        !token_props_of(seq!['"'] + x).is_colon,
        !token_props_of(seq!['"'] + x).is_comma,
        token_props_of(seq!['"'] + x + seq!['\\', '"']).quote_toggle,
        token_props_of(seq!['"'] + x + seq!['\\', '"']).bracket_delta == 0,
        !token_props_of(seq!['"'] + x + seq!['"']).quote_toggle,
{
    let q = seq!['"'];
    assert(q.drop_last() =~= Seq::<char>::empty());
    assert(q.last() == '"');
    assert(scan(q.drop_last()) == scan_start());
    let st = scan(q);
    assert(st.in_str && !st.prev_escape && st.quote_toggle && st.brace == 0 && st.bracket == 0
        && !st.is_colon && !st.is_comma);
    lemma_scan_split(q, x);
    lemma_scan_inside_string(x, st);
    let sx = scan(q + x);
    let e = seq!['\\', '"'];
    lemma_scan_split(q + x, e);
    assert(e.drop_last() =~= seq!['\\']);
    assert(e.last() == '"');
    assert(seq!['\\'].drop_last() =~= Seq::<char>::empty());
    assert(seq!['\\'].last() == '\\');
    assert(scan_from(sx, seq!['\\'].drop_last()) == sx);
    let s1 = scan_from(sx, seq!['\\']);
    assert(s1 == scan_step(sx, '\\'));
    assert(scan_from(sx, e.drop_last()) == s1);
    assert(s1.in_str && s1.prev_escape && s1.quote_toggle == sx.quote_toggle);
    assert(scan_from(sx, e) == scan_step(s1, '"'));
    lemma_scan_split(q + x, seq!['"']);
    assert(seq!['"'].drop_last() =~= Seq::<char>::empty());
    assert(scan_from(sx, seq!['"'].drop_last()) == sx);
}

} // verus!
