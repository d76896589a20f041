//! Conversation bookkeeping for an agent: history trimming, compaction of
//! old messages into a summary, token estimates, tool-output truncation,
//! memory keywords and the retrieved-context blocks added to a prompt.

use vstd::prelude::*;
use vstd::string::*;
use vstd::utf8::*;
use crate::text::{
    all_ws, chars_of, decimal, is_whitespace, is_ws, join, join_strings, lowercase, str_eq,
    string_from_chars, to_lowercase, u64_to_string,
};

verus! {

broadcast use vstd::utf8::group_utf8_lib;

/// Messages kept after the system prompt when a history grows too long.
pub const HISTORY_KEEP: usize = 40;

/// Role of a conversation message.
#[derive(Debug, Clone, Copy, PartialEq, Eq, Structural)]
pub enum Role {
    System,
    User,
    Assistant,
    Tool,
}

/// A conversation message: its role and text.
#[derive(Debug, Clone)]
pub struct ChatMessage {
    pub role: Role,
    pub content: String,
}

/// Byte length of a string as Rust counts it.
pub open spec fn blen(s: Seq<char>) -> nat {
    encode_utf8(s).len()
}

pub(crate) fn byte_len(s: &str) -> (r: usize)
    ensures
        r == blen(s@),
{
    s.as_bytes().len()
}

/// Keeps the first message (the system prompt) and the last 40 when the
/// history holds more than 41 messages.
pub fn trim_history<M>(conv: &mut Vec<M>)
    ensures
        old(conv)@.len() <= HISTORY_KEEP + 1 ==> final(conv)@ == old(conv)@,
        old(conv)@.len() > HISTORY_KEEP + 1 ==> final(conv)@
            == old(conv)@.subrange(0, 1) + old(conv)@.subrange(old(conv)@.len() - HISTORY_KEEP, old(conv)@.len() as int),
{
    if conv.len() <= HISTORY_KEEP + 1 {
        return;
    }
    let ghost o = conv@;
    let drop = conv.len() - HISTORY_KEEP - 1;
    let mut k: usize = 0;
    while k < drop
        invariant
            k <= drop,
            drop == o.len() - HISTORY_KEEP - 1,
            conv@ == o.subrange(0, 1) + o.subrange(1 + k, o.len() as int),
        decreases drop - k,
    {
        let _gone = conv.remove(1);
        assert(conv@ =~= o.subrange(0, 1) + o.subrange(1 + k + 1, o.len() as int));
        k = k + 1;
    }
}

/// Number of messages compacted away when a history of `n` messages
/// (n > 10) is compacted: all but the system prompt and the last 9.
pub open spec fn compacted_count(n: nat) -> nat {
    (n - 10) as nat
}

/// Replaces the messages after the system prompt, except the last 9, by
/// `summary`; histories of at most 10 messages stay as they are.
pub fn compact_history<M>(conv: &mut Vec<M>, summary: M)
    ensures
        old(conv)@.len() <= 10 ==> final(conv)@ == old(conv)@,
        old(conv)@.len() > 10 ==> final(conv)@ == seq![old(conv)@[0], summary]
            + old(conv)@.subrange(old(conv)@.len() - 9, old(conv)@.len() as int),
{
    if conv.len() <= 10 {
        return;
    }
    let ghost o = conv@;
    let drop = conv.len() - 10;
    let mut k: usize = 0;
    while k < drop
        invariant
            k <= drop,
            drop == o.len() - 10,
            conv@ == o.subrange(0, 1) + o.subrange(1 + k, o.len() as int),
        decreases drop - k,
    {
        let _gone = conv.remove(1);
        assert(conv@ =~= o.subrange(0, 1) + o.subrange(1 + k + 1, o.len() as int));
        k = k + 1;
    }
    conv.insert(1, summary);
    assert(conv@ =~= seq![o[0], summary] + o.subrange(o.len() - 9, o.len() as int));
}

/// `s` cut to its first `n` bytes, which must end on a character
/// boundary.
pub open spec fn byte_prefix(s: Seq<char>, n: int) -> Seq<char> {
    decode_utf8(encode_utf8(s).subrange(0, n))
}

/// The first `n` bytes of `s` (`&s[..n]`); `n` must be a character boundary.
pub(crate) fn prefix_bytes(s: &str, n: usize) -> (r: &str)
    requires
        n <= blen(s@),
        is_char_boundary(encode_utf8(s@), n as int),
    ensures
        r@ == byte_prefix(s@, n as int),
{
    proof {
        encode_utf8_valid_utf8(s@);
        valid_utf8_split(encode_utf8(s@), n as int);
    }
    let (head, _) = s.split_at(n);
    proof {
        encode_utf8_decode_utf8(head@);
    }
    head
}

/// How a message shows in a compaction summary: `prefix: text`, with text
/// longer than 100 bytes cut to 100 bytes and followed by "...".
pub open spec fn summary_line(m: (Role, Seq<char>)) -> Seq<char> {
    let prefix = match m.0 {
        Role::User => "User"@,
        Role::Assistant => "AI"@,
        _ => "Tool"@,
    };
    let text = if blen(m.1) > 100 { byte_prefix(m.1, 100) + "..."@ } else { m.1 };
    prefix + ": "@ + text
}

/// The summary lines of the messages that are not system messages.
pub open spec fn summary_lines(ms: Seq<(Role, Seq<char>)>) -> Seq<Seq<char>>
    decreases ms.len(),
{
    if ms.len() == 0 {
        Seq::empty()
    } else if ms.last().0 == Role::System {
        summary_lines(ms.drop_last())
    } else {
        summary_lines(ms.drop_last()).push(summary_line(ms.last()))
    }
}

/// The text of the summary that replaces `count` compacted messages.
pub open spec fn compaction_text(count: nat, ms: Seq<(Role, Seq<char>)>) -> Seq<char> {
    "[Compacted: "@ + decimal(count) + " earlier messages]\n"@ + join(summary_lines(ms), "\n"@)
        + "\n[End of compacted context]"@
}

pub open spec fn msg_view(ms: Seq<ChatMessage>) -> Seq<(Role, Seq<char>)> {
    ms.map_values(|m: ChatMessage| (m.role, m.content@))
}

/// Every long non-system message can be cut at its 100th byte.
pub open spec fn cuttable(ms: Seq<ChatMessage>) -> bool {
    forall|i: int| 0 <= i < ms.len() && (#[trigger] ms[i]).role != Role::System && blen(ms[i].content@) > 100
        ==> is_char_boundary(encode_utf8(ms[i].content@), 100)
}

/// The summary text for the messages being compacted (`msgs`, the
/// messages after the system prompt that go away).
pub fn compaction_summary(msgs: &[ChatMessage]) -> (r: String)
    requires
        cuttable(msgs@),
    ensures
        r@ == compaction_text(msgs@.len(), msg_view(msgs@)),
{
    let ghost mv = msg_view(msgs@);
    let mut parts: Vec<String> = Vec::new();
    let mut i: usize = 0;
    while i < msgs.len()
        invariant
            i <= msgs.len(),
            mv == msg_view(msgs@),
            cuttable(msgs@),
            parts@.map_values(|s: String| s@) == summary_lines(mv.take(i as int)),
        decreases msgs.len() - i,
    {
        let m = &msgs[i];
        assert(mv.take(i as int + 1).drop_last() =~= mv.take(i as int));
        assert(mv[i as int] == (m.role, m.content@));
        match m.role {
            Role::System => {},
            _ => {
                let mut line = String::new();
                match m.role {
                    Role::User => line.append("User"),
                    Role::Assistant => line.append("AI"),
                    _ => line.append("Tool"),
                }
                line.append(": ");
                let n = byte_len(m.content.as_str());
                if n > 100 {
                    let head = prefix_bytes(m.content.as_str(), 100);
                    line.append(head);
                    line.append("...");
                } else {
                    line.append(m.content.as_str());
                }
                assert(line@ =~= summary_line(mv[i as int]));
                let ghost old_parts = parts@;
                parts.push(line);
                assert(parts@.map_values(|s: String| s@) =~= old_parts.map_values(|s: String| s@).push(summary_line(mv[i as int])));
            },
        }
        i = i + 1;
    }
    assert(mv.take(msgs.len() as int) =~= mv);
    let mut r = String::new();
    r.append("[Compacted: ");
    let count = u64_to_string(msgs.len() as u64);
    r.append(count.as_str());
    r.append(" earlier messages]\n");
    let body = join_strings(&parts, "\n");
    r.append(body.as_str());
    r.append("\n[End of compacted context]");
    assert(r@ =~= compaction_text(msgs@.len(), mv));
    r
}

/// The token estimate of a history: the sum over messages of a third of
/// their byte length.
pub open spec fn token_estimate(lens: Seq<nat>) -> nat
    decreases lens.len(),
{
    if lens.len() == 0 { 0 } else { token_estimate(lens.drop_last()) + lens.last() / 3 }
}

pub open spec fn content_lens(ms: Seq<ChatMessage>) -> Seq<nat> {
    ms.map_values(|m: ChatMessage| blen(m.content@))
}

/// Rough token count of a history (about 3 bytes per token).
pub fn estimate_tokens(msgs: &[ChatMessage]) -> (r: usize)
    requires
        token_estimate(content_lens(msgs@)) <= usize::MAX,
    ensures
        r == token_estimate(content_lens(msgs@)),
{
    let ghost lens = content_lens(msgs@);
    let mut total: usize = 0;
    let mut i: usize = 0;
    while i < msgs.len()
        invariant
            i <= msgs.len(),
            lens == content_lens(msgs@),
            token_estimate(lens) <= usize::MAX,
            total == token_estimate(lens.take(i as int)),
        decreases msgs.len() - i,
    {
        assert(lens.take(i as int + 1).drop_last() =~= lens.take(i as int));
        proof {
            lemma_estimate_prefix(lens, i as int + 1);
        }
        let n = byte_len(msgs[i].content.as_str());
        total = total + n / 3;
        i = i + 1;
    }
    assert(lens.take(msgs.len() as int) =~= lens);
    total
}

proof fn lemma_estimate_prefix(lens: Seq<nat>, k: int)
    requires
        0 <= k <= lens.len(),
    ensures
        token_estimate(lens.take(k)) <= token_estimate(lens),
    decreases lens.len() - k,
{
    if k < lens.len() {
        lemma_estimate_prefix(lens, k + 1);
        assert(lens.take(k + 1).drop_last() =~= lens.take(k));
    } else {
        assert(lens.take(k) =~= lens);
    }
}

/// Whether a history should be compacted before the next turn: it holds
/// more than 10 messages and the token estimate exceeds 70% of the context
/// window.
pub fn should_compact(estimated_tokens: usize, max_context: usize, message_count: usize) -> (r: bool)
    ensures
        r == (max_context > 0 && 10 * estimated_tokens > 7 * max_context && message_count > 10),
{
    max_context > 0 && (estimated_tokens as u128) * 10 > (max_context as u128) * 7 && message_count > 10
}

/// A tool's output as fed back to the model: outputs over 4000 bytes are
/// cut to 4000 bytes and marked with their full length.
pub open spec fn tool_output_text(out: Seq<char>) -> Seq<char> {
    if blen(out) > 4000 {
        byte_prefix(out, 4000) + "...\n[truncated, "@ + decimal(blen(out)) + " total chars]"@
    } else {
        out
    }
}

/// Cuts a tool's output for the conversation (4000 bytes at most, plus a
/// note of the full length).
pub fn truncate_tool_output(out: String) -> (r: String)
    requires
        blen(out@) > 4000 ==> is_char_boundary(encode_utf8(out@), 4000),
    ensures
        r@ == tool_output_text(out@),
{
    let n = byte_len(out.as_str());
    if n <= 4000 {
        return out;
    }
    let mut r = String::new();
    let head = prefix_bytes(out.as_str(), 4000);
    r.append(head);
    r.append("...\n[truncated, ");
    let total = u64_to_string(n as u64);
    r.append(total.as_str());
    r.append(" total chars]");
    assert(r@ =~= tool_output_text(out@));
    r
}

/// The system prompt with the brain workspace context appended after a
/// blank line, unless that context is empty or white space.
pub open spec fn full_system_prompt(prompt: Seq<char>, brain: Seq<char>) -> Seq<char> {
    if all_ws(brain) { prompt } else { prompt + "\n\n"@ + brain }
}

/// Builds the system prompt from the configured prompt and the brain
/// workspace context.
pub fn build_system_prompt(prompt: &str, brain_context: &str) -> (r: String)
    ensures
        r@ == full_system_prompt(prompt@, brain_context@),
{
    let cs = chars_of(brain_context);
    let mut blank = true;
    let mut i: usize = 0;
    while i < cs.len()
        invariant
            i <= cs.len(),
            cs@ == brain_context@,
            blank == (forall|j: int| 0 <= j < i ==> is_ws(#[trigger] cs@[j])),
        decreases cs.len() - i,
    {
        let w = is_whitespace(cs[i]);
        proof {
            if !w {
                assert(!is_ws(cs@[i as int]));
            }
            if blank && w {
                assert forall|j: int| 0 <= j < i + 1 implies is_ws(#[trigger] cs@[j]) by {}
            }
        }
        blank = blank && w;
        i = i + 1;
    }
    let mut r = String::new();
    r.append(prompt);
    if !blank {
        r.append("\n\n");
        r.append(brain_context);
    }
    assert(r@ =~= full_system_prompt(prompt@, brain_context@));
    r
}


/// The numbered entry `i+1. item` followed by a newline.
pub open spec fn numbered(i: nat, item: Seq<char>) -> Seq<char> {
    decimal(i + 1) + ". "@ + item + "\n"@
}

/// The first `k` numbered entries, concatenated.
pub open spec fn numbered_prefix(items: Seq<Seq<char>>, k: nat) -> Seq<char>
    decreases k,
{
    if k == 0 { Seq::empty() } else { numbered_prefix(items, (k - 1) as nat) + numbered((k - 1) as nat, items[k - 1]) }
}

/// `r` is the longest run of leading numbered entries whose total byte
/// length stays within `limit`.
pub open spec fn fills(items: Seq<Seq<char>>, limit: nat, r: Seq<char>) -> bool {
    exists|k: nat| k <= items.len() && r == #[trigger] numbered_prefix(items, k)
        && blen(numbered_prefix(items, k)) <= limit
        && (k == items.len() || blen(numbered_prefix(items, k + 1)) > limit)
}

proof fn lemma_blen_concat(a: Seq<char>, b: Seq<char>)
    ensures
        blen(a + b) == blen(a) + blen(b),
{
    crate::text::lemma_encode_concat(a, b);
}

/// Numbers the items and keeps as many leading entries as fit in `limit`
/// bytes.
pub fn numbered_block(items: &Vec<String>, limit: usize) -> (r: String)
    ensures
        fills(items@.map_values(|s: String| s@), limit as nat, r@),
{
    let ghost iv = items@.map_values(|s: String| s@);
    let mut out = String::new();
    let mut used: usize = 0;
    let mut i: usize = 0;
    while i < items.len()
        invariant_except_break
            i <= items.len(),
            iv == items@.map_values(|s: String| s@),
            out@ == numbered_prefix(iv, i as nat),
            used == blen(out@),
            used <= limit,
        ensures
            fills(iv, limit as nat, out@),
        decreases items.len() - i,
    {
        let mut entry = String::new();
        let num = u64_to_string((i as u64) + 1);
        entry.append(num.as_str());
        entry.append(". ");
        entry.append(items[i].as_str());
        entry.append("\n");
        assert(entry@ =~= numbered(i as nat, iv[i as int]));
        let n = byte_len(entry.as_str());
        proof {
            lemma_blen_concat(out@, entry@);
            assert(numbered_prefix(iv, (i + 1) as nat) == out@ + entry@);
        }
        if n > limit - used {
            assert(out@ == numbered_prefix(iv, i as nat));
            break;
        }
        out.append(entry.as_str());
        used = used + n;
        i = i + 1;
    }
    out
}


/// The knowledge-base context: the results (document name and excerpt)
/// numbered as "n. [document] excerpt", as many as fit in 1500 bytes;
/// `None` when nothing was found.
pub fn knowledge_context(results: &Vec<(String, String)>) -> (r: Option<String>)
    ensures
        results@.len() == 0 ==> r is None,
        results@.len() > 0 ==> (r matches Some(t) && fills(
            results@.map_values(|e: (String, String)| "["@ + e.0@ + "] "@ + e.1@), 1500, t@)),
{
    if results.len() == 0 {
        return None;
    }
    let mut items: Vec<String> = Vec::new();
    let mut i: usize = 0;
    while i < results.len()
        invariant
            i <= results.len(),
            items@.map_values(|s: String| s@)
                == results@.take(i as int).map_values(|e: (String, String)| "["@ + e.0@ + "] "@ + e.1@),
        decreases results.len() - i,
    {
        let mut item = String::from_str("[");
        item.append(results[i].0.as_str());
        item.append("] ");
        item.append(results[i].1.as_str());
        let ghost before = items@.map_values(|s: String| s@);
        items.push(item);
        assert(items@.map_values(|s: String| s@) =~= before.push(item@));
        assert(results@.take(i as int + 1).map_values(|e: (String, String)| "["@ + e.0@ + "] "@ + e.1@)
            =~= results@.take(i as int).map_values(|e: (String, String)| "["@ + e.0@ + "] "@ + e.1@).push(item@));
        i = i + 1;
    }
    assert(results@.take(results.len() as int) =~= results@);
    Some(numbered_block(&items, 1500))
}

/// The memory context: past conversations numbered as "n. text", the first
/// five at most, as many as fit in 2000 bytes; `None` when there are none.
pub fn memory_context(memories: &Vec<String>) -> (r: Option<String>)
    ensures
        memories@.len() == 0 ==> r is None,
        memories@.len() > 0 ==> (r matches Some(t) && fills(
            memories@.map_values(|s: String| s@).take(if memories@.len() < 5 { memories@.len() as int } else { 5 }),
            2000, t@)),
{
    if memories.len() == 0 {
        return None;
    }
    let n = if memories.len() < 5 { memories.len() } else { 5 };
    let mut first: Vec<String> = Vec::new();
    let mut i: usize = 0;
    while i < n
        invariant
            i <= n <= memories.len(),
            first@.map_values(|s: String| s@) == memories@.map_values(|s: String| s@).take(i as int),
        decreases n - i,
    {
        let ghost before = first@.map_values(|s: String| s@);
        let x = String::from_str(memories[i].as_str());
        first.push(x);
        assert(first@.map_values(|s: String| s@) =~= before.push(memories@[i as int]@));
        assert(memories@.map_values(|s: String| s@).take(i as int + 1)
            =~= memories@.map_values(|s: String| s@).take(i as int).push(memories@[i as int]@));
        i = i + 1;
    }
    Some(numbered_block(&first, 2000))
}

/// The contents of the memory results, the first result of each ID kept.
pub open spec fn distinct_by_id(rs: Seq<(Seq<char>, Seq<char>)>) -> Seq<Seq<char>>
    decreases rs.len(),
{
    if rs.len() == 0 {
        Seq::empty()
    } else {
        let rest = distinct_by_id(rs.drop_last());
        if rs.drop_last().map_values(|e: (Seq<char>, Seq<char>)| e.0).contains(rs.last().0) {
            rest
        } else {
            rest.push(rs.last().1)
        }
    }
}

/// Keeps the first memory result of each ID (results are `(id, content)`).
pub fn dedup_memories(results: &Vec<(String, String)>) -> (r: Vec<String>)
    ensures
        r@.map_values(|s: String| s@) == distinct_by_id(results@.map_values(|e: (String, String)| (e.0@, e.1@))),
{
    let ghost rv = results@.map_values(|e: (String, String)| (e.0@, e.1@));
    let mut seen: Vec<String> = Vec::new();
    let mut out: Vec<String> = Vec::new();
    let mut i: usize = 0;
    while i < results.len()
        invariant
            i <= results.len(),
            rv == results@.map_values(|e: (String, String)| (e.0@, e.1@)),
            seen@.map_values(|s: String| s@) == rv.take(i as int).map_values(|e: (Seq<char>, Seq<char>)| e.0),
            out@.map_values(|s: String| s@) == distinct_by_id(rv.take(i as int)),
        decreases results.len() - i,
    {
        let id = &results[i].0;
        let mut found = false;
        let mut j: usize = 0;
        while j < seen.len()
            invariant
                j <= seen.len(),
                found == seen@.map_values(|s: String| s@).take(j as int).contains(id@),
            decreases seen.len() - j,
        {
            let ghost sv = seen@.map_values(|s: String| s@);
            let ghost was = found;
            let same = str_eq(seen[j].as_str(), id.as_str());
            if same {
                found = true;
            }
            proof {
                let t0 = sv.take(j as int);
                let t1 = sv.take(j as int + 1);
                assert(t1 =~= t0.push(sv[j as int]));
                assert(sv[j as int] == seen@[j as int]@);
                if t0.contains(id@) {
                    let k = choose|k: int| 0 <= k < t0.len() && t0[k] == id@;
                    assert(t1[k] == id@);
                }
                if same {
                    assert(t1[j as int] == id@);
                }
                if t1.contains(id@) {
                    let k = choose|k: int| 0 <= k < t1.len() && t1[k] == id@;
                    if k < j {
                        assert(t0[k] == id@);
                    }
                }
            }
            j = j + 1;
        }
        assert(seen@.map_values(|s: String| s@).take(seen.len() as int) =~= seen@.map_values(|s: String| s@));
        assert(rv.take(i as int + 1).drop_last() =~= rv.take(i as int));
        assert(rv[i as int] == (id@, results[i as int].1@));
        let ghost before_seen = seen@.map_values(|s: String| s@);
        let ghost before_out = out@.map_values(|s: String| s@);
        if !found {
            out.push(String::from_str(results[i].1.as_str()));
            assert(out@.map_values(|s: String| s@) =~= before_out.push(results[i as int].1@));
        }
        seen.push(String::from_str(id.as_str()));
        assert(seen@.map_values(|s: String| s@) =~= before_seen.push(id@));
        assert(rv.take(i as int + 1).map_values(|e: (Seq<char>, Seq<char>)| e.0)
            =~= rv.take(i as int).map_values(|e: (Seq<char>, Seq<char>)| e.0).push(id@));
        i = i + 1;
    }
    assert(rv.take(results.len() as int) =~= rv);
    out
}

/// Whether a character is alphanumeric as `char::is_alphanumeric` says
/// (Unicode Alphabetic or Numeric).
pub uninterp spec fn alphanumeric(c: char) -> bool;

/// `char::is_alphanumeric`.
#[verifier::external_body]
pub(crate) fn is_alphanumeric(c: char) -> (r: bool)
    ensures
        r == alphanumeric(c),
{
    c.is_alphanumeric()
}

/// Characters that separate the words of a message for memory search.
pub open spec fn word_separator(c: char) -> bool {
    !alphanumeric(c) && c != '_'
}

/// The pieces of `s` between separators, as `(finished pieces, piece in
/// progress)`.
pub open spec fn piece_scan(s: Seq<char>) -> (Seq<Seq<char>>, Seq<char>)
    decreases s.len(),
{
    if s.len() == 0 {
        (Seq::empty(), Seq::empty())
    } else {
        let (done, cur) = piece_scan(s.drop_last());
        if word_separator(s.last()) {
            (done.push(cur), Seq::empty())
        } else {
            (done, cur.push(s.last()))
        }
    }
}

/// Words ignored in memory search.
pub open spec fn stop_words() -> Seq<Seq<char>> {
    seq!["the"@, "a"@, "an"@, "is"@, "are"@, "was"@, "were"@, "be"@, "been"@, "being"@, "have"@, "has"@, "had"@, "do"@, "does"@, "did"@, "will"@, "would"@, "could"@, "should"@, "may"@, "might"@, "shall"@, "can"@, "need"@, "dare"@, "ought"@, "i"@, "me"@, "my"@, "you"@, "your"@, "he"@, "she"@, "it"@, "we"@, "they"@, "this"@, "that"@, "these"@, "those"@, "what"@, "which"@, "who"@, "how"@, "and"@, "but"@, "or"@, "not"@, "no"@, "of"@, "in"@, "on"@, "at"@, "to"@, "for"@, "with"@, "from"@, "by"@, "as"@, "if"@, "then"@, "so"@, "than"@, "tôi"@, "bạn"@, "là"@, "có"@, "và"@, "của"@, "với"@, "cho"@, "để"@, "không"@, "được"@, "này"@, "đó"@, "một"@, "các"@, "những"@]
}

/// A word worth searching for: longer than two bytes and, lowercased, not a
/// stop word.
pub open spec fn is_keyword(w: Seq<char>) -> bool {
    blen(w) > 2 && !stop_words().contains(lowercase(w))
}

/// The keywords among the pieces, in order.
pub open spec fn keywords_in(ps: Seq<Seq<char>>) -> Seq<Seq<char>>
    decreases ps.len(),
{
    if ps.len() == 0 {
        Seq::empty()
    } else if is_keyword(ps.last()) {
        keywords_in(ps.drop_last()).push(ps.last())
    } else {
        keywords_in(ps.drop_last())
    }
}

/// The first five keywords of a message.
pub open spec fn message_keywords(s: Seq<char>) -> Seq<Seq<char>> {
    let ks = keywords_in(piece_scan(s).0.push(piece_scan(s).1));
    if ks.len() <= 5 { ks } else { ks.take(5) }
}

fn is_stop_word(w: &str) -> (r: bool)
    ensures
        r == stop_words().contains(w@),
{
    let words = vec!["the", "a", "an", "is", "are", "was", "were", "be", "been", "being", "have", "has", "had", "do", "does", "did", "will", "would", "could", "should", "may", "might", "shall", "can", "need", "dare", "ought", "i", "me", "my", "you", "your", "he", "she", "it", "we", "they", "this", "that", "these", "those", "what", "which", "who", "how", "and", "but", "or", "not", "no", "of", "in", "on", "at", "to", "for", "with", "from", "by", "as", "if", "then", "so", "than", "tôi", "bạn", "là", "có", "và", "của", "với", "cho", "để", "không", "được", "này", "đó", "một", "các", "những"];
    assert(words@.map_values(|x: &str| x@) =~= stop_words());
    let mut i: usize = 0;
    while i < words.len()
        invariant
            i <= words.len(),
            words@.map_values(|x: &str| x@) == stop_words(),
            forall|j: int| 0 <= j < i ==> stop_words()[j] != w@,
        decreases words.len() - i,
    {
        if str_eq(words[i], w) {
            assert(stop_words()[i as int] == w@);
            return true;
        }
        i = i + 1;
    }
    false
}

/// The words of a message to search past conversations with: pieces
/// between non-alphanumeric characters (other than `_`) that are longer
/// than two bytes and not stop words, the first five of them.
pub fn memory_keywords(message: &str) -> (r: Vec<String>)
    ensures
        r@.map_values(|w: String| w@) == message_keywords(message@),
{
    let cs = chars_of(message);
    let mut pieces: Vec<String> = Vec::new();
    let mut cur: Vec<char> = Vec::new();
    let mut i: usize = 0;
    while i < cs.len()
        invariant
            i <= cs.len(),
            cs@ == message@,
            (pieces@.map_values(|w: String| w@), cur@) == piece_scan(message@.take(i as int)),
        decreases cs.len() - i,
    {
        assert(message@.take(i as int + 1).drop_last() =~= message@.take(i as int));
        let c = cs[i];
        let sep = !is_alphanumeric(c) && c != '_';
        if sep {
            let w = string_from_chars(cur.as_slice());
            let ghost before = pieces@.map_values(|w: String| w@);
            pieces.push(w);
            assert(pieces@.map_values(|w: String| w@) =~= before.push(cur@));
            cur = Vec::new();
        } else {
            cur.push(c);
        }
        i = i + 1;
    }
    assert(message@.take(cs.len() as int) =~= message@);
    let last = string_from_chars(cur.as_slice());
    let ghost before = pieces@.map_values(|w: String| w@);
    pieces.push(last);
    let ghost ps = pieces@.map_values(|w: String| w@);
    assert(ps =~= before.push(cur@));
    let mut keys: Vec<String> = Vec::new();
    let mut k: usize = 0;
    while k < pieces.len()
        invariant
            k <= pieces.len(),
            ps == pieces@.map_values(|w: String| w@),
            keys@.map_values(|w: String| w@) == keywords_in(ps.take(k as int)),
        decreases pieces.len() - k,
    {
        assert(ps.take(k as int + 1).drop_last() =~= ps.take(k as int));
        let w = pieces[k].as_str();
        assert(ps[k as int] == w@);
        let n = byte_len(w);
        let low = to_lowercase(w);
        if n > 2 && !is_stop_word(low.as_str()) {
            let ghost bk = keys@.map_values(|w: String| w@);
            keys.push(String::from_str(w));
            assert(keys@.map_values(|x: String| x@) =~= bk.push(w@));
        }
        k = k + 1;
    }
    assert(ps.take(pieces.len() as int) =~= ps);
    let mut r: Vec<String> = Vec::new();
    let mut j: usize = 0;
    while j < keys.len() && j < 5
        invariant
            j <= keys.len(),
            j <= 5,
            r@.map_values(|w: String| w@) == keys@.map_values(|w: String| w@).take(j as int),
        decreases keys.len() - j,
    {
        let ghost br = r@.map_values(|w: String| w@);
        let x = String::from_str(keys[j].as_str());
        r.push(x);
        assert(r@.map_values(|w: String| w@) =~= br.push(keys@[j as int]@));
        assert(keys@.map_values(|w: String| w@).take(j as int + 1)
            =~= keys@.map_values(|w: String| w@).take(j as int).push(keys@[j as int]@));
        j = j + 1;
    }
    proof {
        let ks = keys@.map_values(|w: String| w@);
        if ks.len() <= 5 {
            assert(ks.take(j as int) =~= ks);
        }
    }
    r
}

/// The system message that carries knowledge-base context.
pub open spec fn knowledge_message_text(ctx: Seq<char>) -> Seq<char> {
    "[Knowledge Base — relevant documents]\n"@ + ctx + "\n[End of knowledge context]"@
}

/// Wraps knowledge-base context for the conversation.
pub fn knowledge_message(ctx: &str) -> (r: String)
    ensures
        r@ == knowledge_message_text(ctx@),
{
    let mut r = String::from_str("[Knowledge Base — relevant documents]\n");
    r.append(ctx);
    r.append("\n[End of knowledge context]");
    r
}

/// The system message that carries past conversations.
pub open spec fn memory_message_text(ctx: Seq<char>) -> Seq<char> {
    "[Past conversations]\n"@ + ctx + "\n[End of past conversations]"@
}

/// Wraps memory context for the conversation.
pub fn memory_message(ctx: &str) -> (r: String)
    ensures
        r@ == memory_message_text(ctx@),
{
    let mut r = String::from_str("[Past conversations]\n");
    r.append(ctx);
    r.append("\n[End of past conversations]");
    r
}

/// The memory entry saved for an exchange.
pub fn memory_entry_text(user_msg: &str, assistant_msg: &str) -> (r: String)
    ensures
        r@ == "User: "@ + user_msg@ + "\nAssistant: "@ + assistant_msg@,
{
    let mut r = String::from_str("User: ");
    r.append(user_msg);
    r.append("\nAssistant: ");
    r.append(assistant_msg);
    r
}

/// Tool-calling rounds before the model must answer in text.
pub const MAX_TOOL_ROUNDS: usize = 3;

/// Whether the tools are offered to the model in round `round` (counted
/// from 0): in all rounds but the last.
pub fn tools_offered(round: usize) -> (r: bool)
    ensures
        r == (round < MAX_TOOL_ROUNDS),
{
    round < MAX_TOOL_ROUNDS
}

/// The answer when the model gives no text: "I'm not sure how to
/// respond." for an empty reply, "I executed the requested tools." when
/// every round called tools.
pub fn fallback_answer(tools_exhausted: bool) -> (r: String)
    ensures
        r@ == (if tools_exhausted { "I executed the requested tools."@ } else { "I'm not sure how to respond."@ }),
{
    if tools_exhausted {
        String::from_str("I executed the requested tools.")
    } else {
        String::from_str("I'm not sure how to respond.")
    }
}

/// The result of a shell command refused by the security policy.
pub fn permission_denied_text(command: &str) -> (r: String)
    ensures
        r@ == "Permission denied: command '"@ + command@ + "' not allowed"@,
{
    let mut r = String::from_str("Permission denied: command '");
    r.append(command);
    r.append("' not allowed");
    r
}

/// The result of a call to a tool that does not exist.
pub fn tool_not_found_text(name: &str) -> (r: String)
    ensures
        r@ == "Tool not found: "@ + name@,
{
    let mut r = String::from_str("Tool not found: ");
    r.append(name);
    r
}

/// The result of a tool that failed.
pub fn tool_error_text(error: &str) -> (r: String)
    ensures
        r@ == "Tool error: "@ + error@,
{
    let mut r = String::from_str("Tool error: ");
    r.append(error);
    r
}

/// How long cached tool definitions are used before they are listed again,
/// in milliseconds.
pub const TOOL_CACHE_MS: u64 = 300_000;

/// The tool definitions offered to the provider, as listed at a moment
/// (milliseconds on a monotonic clock).
pub struct PromptCache<D> {
    cached_tool_defs: Vec<D>,
    last_refresh: u64,
}

impl<D> PromptCache<D> {
    pub closed spec fn defs(self) -> Seq<D> {
        self.cached_tool_defs@
    }

    pub closed spec fn refreshed_at(self) -> u64 {
        self.last_refresh
    }

    /// A cache holding the definitions listed at `now`.
    pub fn new(defs: Vec<D>, now: u64) -> (r: Self)
        ensures
            r.defs() == defs@,
            r.refreshed_at() == now,
    {
        PromptCache { cached_tool_defs: defs, last_refresh: now }
    }

    /// Whether the definitions must be listed again at `now`: more than
    /// five minutes have passed since they were.
    pub fn is_stale(&self, now: u64) -> (r: bool)
        ensures
            r == (now > self.refreshed_at() && now - self.refreshed_at() > TOOL_CACHE_MS),
    {
        now > self.last_refresh && now - self.last_refresh > TOOL_CACHE_MS
    }

    /// Replaces the definitions with those listed at `now`.
    pub fn refresh(&mut self, defs: Vec<D>, now: u64)
        ensures
            final(self).defs() == defs@,
            final(self).refreshed_at() == now,
    {
        self.cached_tool_defs = defs;
        self.last_refresh = now;
    }

    /// The cached definitions.
    pub fn tool_defs(&self) -> (r: &Vec<D>)
        ensures
            r@ == self.defs(),
    {
        &self.cached_tool_defs
    }
}

/// What the agent does next in a turn.
#[derive(Debug, Clone)]
pub enum TurnAction {
    /// Ask the provider, with the tool definitions or without them.
    Ask { offer_tools: bool },
    /// Run the reply's tool calls, record the assistant message with the
    /// calls and their results, then ask the provider again.
    RunTools { then_offer_tools: bool },
    /// Record these assistant messages, in order, and give the answer.
    Answer { recorded: Vec<String>, answer: String },
}

/// The tool-calling loop of one agent turn: the provider call awaited
/// (counted from 0), how many rounds ran tools, and whether the turn is over.
pub struct TurnState {
    round: usize,
    tool_rounds: usize,
    finished: bool,
}

impl TurnState {
    pub closed spec fn round_spec(self) -> nat {
        self.round as nat
    }

    pub closed spec fn tool_rounds_spec(self) -> nat {
        self.tool_rounds as nat
    }

    pub closed spec fn finished_spec(self) -> bool {
        self.finished
    }

    /// The rounds a turn may take: `round` never passes the last one, and
    /// every round before it ran tools.
    pub closed spec fn wf(self) -> bool {
        self.round <= MAX_TOOL_ROUNDS && self.tool_rounds == self.round
    }

    /// A new turn, and its first action: ask the provider with the tools.
    pub fn begin() -> (r: (Self, TurnAction))
        ensures
            r.0.wf(),
            r.0.round_spec() == 0,
            r.0.tool_rounds_spec() == 0,
            !r.0.finished_spec(),
            r.1 matches TurnAction::Ask { offer_tools } && offer_tools,
    {
        (TurnState { round: 0, tool_rounds: 0, finished: false }, TurnAction::Ask { offer_tools: true })
    }

    /// How many rounds ran tools (the turn's statistics).
    pub fn tool_rounds(&self) -> (r: usize)
        ensures
            r == self.tool_rounds_spec(),
    {
        self.tool_rounds
    }

    /// The next step after the provider answered with `content` and
    /// `tool_calls` tool calls. Without tool calls the turn ends with the
    /// text ("I'm not sure how to respond." where there is none; an empty
    /// text is followed by "I executed the requested tools."). With tool
    /// calls in rounds 0 to 2, they run and the provider is asked again in
    /// the next round, with the tools while that round is below 3. The
    /// tool calls of a reply in round 3, which was asked without tools, do
    /// not run: the turn ends with "I executed the requested tools.". So a
    /// turn runs tools in at most three rounds and asks the provider at
    /// most four times.
    pub fn step(&mut self, content: Option<String>, tool_calls: usize) -> (r: TurnAction)
        requires
            old(self).wf(),
            !old(self).finished_spec(),
        ensures
            final(self).wf(),
            tool_calls == 0 ==> {
                let text = match content { Some(c) => c@, None => "I'm not sure how to respond."@ };
                &&& final(self).finished_spec()
                &&& final(self).round_spec() == old(self).round_spec()
                &&& final(self).tool_rounds_spec() == old(self).tool_rounds_spec()
                &&& r matches TurnAction::Answer { recorded, answer }
                &&& (if text.len() > 0 {
                        r->recorded@.map_values(|m: String| m@) == seq![text] && r->answer@ == text
                    } else {
                        r->recorded@.map_values(|m: String| m@) == seq![text, "I executed the requested tools."@]
                            && r->answer@ == "I executed the requested tools."@
                    })
            },
            final(self).tool_rounds_spec() <= MAX_TOOL_ROUNDS,
            tool_calls > 0 && old(self).round_spec() < MAX_TOOL_ROUNDS ==> (!final(self).finished_spec()
                && final(self).round_spec() == old(self).round_spec() + 1
                && final(self).tool_rounds_spec() == old(self).round_spec() + 1
                && (r matches TurnAction::RunTools { then_offer_tools }
                    && then_offer_tools == (final(self).round_spec() < MAX_TOOL_ROUNDS))),
            tool_calls > 0 && old(self).round_spec() == MAX_TOOL_ROUNDS ==> (final(self).finished_spec()
                && final(self).round_spec() == old(self).round_spec()
                && final(self).tool_rounds_spec() == old(self).tool_rounds_spec()
                && (r matches TurnAction::Answer { recorded, answer }
                    && recorded@.map_values(|m: String| m@) == seq!["I executed the requested tools."@]
                    && answer@ == "I executed the requested tools."@)),
    {
        if tool_calls == 0 {
            self.finished = true;
            let text = match content {
                Some(c) => c,
                None => String::from_str("I'm not sure how to respond."),
            };
            let mut recorded: Vec<String> = Vec::new();
            if text.as_str().is_empty() {
                let ghost tv = text@;
                recorded.push(text);
                recorded.push(String::from_str("I executed the requested tools."));
                assert(recorded@.map_values(|m: String| m@) =~= seq![tv, "I executed the requested tools."@]);
                return TurnAction::Answer { recorded, answer: String::from_str("I executed the requested tools.") };
            }
            let answer = text.clone();
            recorded.push(text);
            assert(recorded@.map_values(|m: String| m@) =~= seq![answer@]);
            return TurnAction::Answer { recorded, answer };
        }
        if self.round < MAX_TOOL_ROUNDS {
            self.round = self.round + 1;
            self.tool_rounds = self.round;
            TurnAction::RunTools { then_offer_tools: self.round < MAX_TOOL_ROUNDS }
        } else {
            self.finished = true;
            let mut recorded: Vec<String> = Vec::new();
            recorded.push(String::from_str("I executed the requested tools."));
            let answer = String::from_str("I executed the requested tools.");
            assert(recorded@.map_values(|m: String| m@) =~= seq![answer@]);
            TurnAction::Answer { recorded, answer }
        }
    }
}

/// A turn runs tools in at most three rounds, and asks the provider at
/// most four times: once at the start and once after each tool round.
pub proof fn lemma_turn_bounded(st: TurnState)
    requires
        st.wf(),
    ensures
        st.tool_rounds_spec() <= MAX_TOOL_ROUNDS,
        st.round_spec() + 1 <= MAX_TOOL_ROUNDS + 1,
        st.tool_rounds_spec() == st.round_spec(),
{
}


/// The words that memory search ignores, in any case: English and
/// Vietnamese function words.
pub open spec fn ignored_words() -> Seq<Seq<char>> {
    seq![
        "the"@, "a"@, "an"@, "is"@, "are"@, "was"@, "were"@, "be"@,
        "been"@, "being"@, "have"@, "has"@, "had"@, "do"@, "does"@, "did"@,
        "will"@, "would"@, "could"@, "should"@, "may"@, "might"@, "shall"@, "can"@,
        "need"@, "dare"@, "ought"@, "i"@, "me"@, "my"@, "you"@, "your"@,
        "he"@, "she"@, "it"@, "we"@, "they"@, "this"@, "that"@, "these"@,
        "those"@, "what"@, "which"@, "who"@, "how"@, "and"@, "but"@, "or"@,
        "not"@, "no"@, "of"@, "in"@, "on"@, "at"@, "to"@, "for"@,
        "with"@, "from"@, "by"@, "as"@, "if"@, "then"@, "so"@, "than"@,
        "tôi"@, "bạn"@, "là"@, "có"@, "và"@, "của"@, "với"@, "cho"@,
        "để"@, "không"@, "được"@, "này"@, "đó"@, "một"@, "các"@, "những"@,
    ]
}

proof fn lemma_pieces_unseparated(s: Seq<char>)
    ensures
        forall|k: int, c: int| 0 <= k < piece_scan(s).0.len() && 0 <= c < piece_scan(s).0[k].len()
            ==> !word_separator(#[trigger] piece_scan(s).0[k][c]),
        forall|c: int| 0 <= c < piece_scan(s).1.len() ==> !word_separator(#[trigger] piece_scan(s).1[c]),
    decreases s.len(),
{
    if s.len() > 0 {
        lemma_pieces_unseparated(s.drop_last());
        let (done, cur) = piece_scan(s.drop_last());
        if word_separator(s.last()) {
            assert forall|k: int, c: int| 0 <= k < piece_scan(s).0.len() && 0 <= c < piece_scan(s).0[k].len()
                implies !word_separator(#[trigger] piece_scan(s).0[k][c]) by {
                if k < done.len() {
                    assert(piece_scan(s).0[k] == done[k]);
                } else {
                    assert(piece_scan(s).0[k] == cur);
                }
            }
        } else {
            assert forall|c: int| 0 <= c < piece_scan(s).1.len() implies !word_separator(#[trigger] piece_scan(s).1[c]) by {
                if c < cur.len() {
                    assert(piece_scan(s).1[c] == cur[c]);
                }
            }
        }
    }
}

proof fn lemma_keywords_in_sound(ps: Seq<Seq<char>>)
    ensures
        keywords_in(ps).len() <= ps.len(),
        forall|k: int| 0 <= k < keywords_in(ps).len() ==> is_keyword(#[trigger] keywords_in(ps)[k]),
        forall|k: int| 0 <= k < keywords_in(ps).len() ==> ps.contains(#[trigger] keywords_in(ps)[k]),
    decreases ps.len(),
{
    if ps.len() > 0 {
        let p = ps.drop_last();
        lemma_keywords_in_sound(p);
        let kp = keywords_in(p);
        let ks = keywords_in(ps);
        assert forall|k: int| 0 <= k < ks.len() implies is_keyword(#[trigger] ks[k]) && ps.contains(ks[k]) by {
            if k < kp.len() {
                assert(ks[k] == kp[k]);
                assert(is_keyword(kp[k]));
                assert(p.contains(kp[k]));
                let m = choose|m: int| 0 <= m < p.len() && p[m] == kp[k];
                assert(ps[m] == p[m]);
            } else {
                assert(ks[k] == ps.last());
                assert(ps[ps.len() - 1] == ps.last());
            }
        }
    }
}

proof fn lemma_no_separator_one_piece(s: Seq<char>)
    requires
        forall|c: int| 0 <= c < s.len() ==> !word_separator(#[trigger] s[c]),
    ensures
        piece_scan(s) == (Seq::<Seq<char>>::empty(), s),
    decreases s.len(),
{
    if s.len() > 0 {
        let p = s.drop_last();
        assert forall|c: int| 0 <= c < p.len() implies !word_separator(#[trigger] p[c]) by {
            assert(p[c] == s[c]);
        }
        lemma_no_separator_one_piece(p);
        assert(!word_separator(s[s.len() - 1]));
        assert(p.push(s.last()) =~= s);
    }
}

/// The memory keywords of any message are at most five words of it, each
/// without a separator (every character alphanumeric or '_'), longer than
/// two bytes, and whose lowercase form is none of the ignored words: so
/// "tôi" or "The" never reaches a memory search.
pub proof fn lemma_keywords_skip_ignored(s: Seq<char>)
    ensures
        message_keywords(s).len() <= 5,
        forall|k: int| 0 <= k < message_keywords(s).len() ==> {
            let w = #[trigger] message_keywords(s)[k];
            &&& blen(w) > 2
            &&& !ignored_words().contains(lowercase(w))
            &&& forall|c: int| 0 <= c < w.len() ==> alphanumeric(#[trigger] w[c]) || w[c] == '_'
        },
{
    assert(ignored_words() =~= stop_words());
    let ps = piece_scan(s).0.push(piece_scan(s).1);
    lemma_pieces_unseparated(s);
    lemma_keywords_in_sound(ps);
    let ks = keywords_in(ps);
    assert forall|k: int| 0 <= k < message_keywords(s).len() implies {
        let w = #[trigger] message_keywords(s)[k];
        &&& blen(w) > 2
        &&& !ignored_words().contains(lowercase(w))
        &&& forall|c: int| 0 <= c < w.len() ==> alphanumeric(#[trigger] w[c]) || w[c] == '_'
    } by {
        assert(message_keywords(s)[k] == ks[k]);
        assert(is_keyword(ks[k]));
        let m = choose|m: int| 0 <= m < ps.len() && ps[m] == ks[k];
        if m < piece_scan(s).0.len() {
            assert(ps[m] == piece_scan(s).0[m]);
        } else {
            assert(ps[m] == piece_scan(s).1);
        }
    }
}

/// A message that is a single word (no separator in it) longer than two
/// bytes and, lowercased, none of the ignored words has that word as its
/// only memory keyword.
pub proof fn lemma_single_word_kept(s: Seq<char>)
    requires
        forall|c: int| 0 <= c < s.len() ==> alphanumeric(#[trigger] s[c]) || s[c] == '_',
        blen(s) > 2,
        !ignored_words().contains(lowercase(s)),
    ensures
        message_keywords(s) == seq![s],
{
    assert(ignored_words() =~= stop_words());
    assert forall|c: int| 0 <= c < s.len() implies !word_separator(#[trigger] s[c]) by {}
    lemma_no_separator_one_piece(s);
    let ps = piece_scan(s).0.push(piece_scan(s).1);
    assert(ps =~= seq![s]);
    assert(ps.drop_last() =~= Seq::<Seq<char>>::empty());
    assert(ps.last() == s);
    assert(is_keyword(s));
    assert(keywords_in(ps.drop_last()) == Seq::<Seq<char>>::empty());
    assert(keywords_in(ps) =~= seq![s]);
}

} // verus!
