//! Decisions of a gateway WebSocket chat session: what each client message
//! leads to, the history kept for direct provider calls, and how a reply is
//! cut into stream chunks.

use vstd::prelude::*;
use vstd::string::*;
use crate::text::{chars_of, decimal, str_eq, string_from_chars, u64_to_string};

verus! {

/// Who wrote a message of the direct-mode history.
#[derive(Debug, Clone, Copy, PartialEq, Eq, Structural)]
pub enum WsRole {
    System,
    User,
    Assistant,
}

/// The system prompt that opens the direct-mode history.
pub open spec fn ws_system_prompt() -> Seq<char> {
    "Bạn là BizClaw AI Assistant. Trả lời ngắn gọn, hữu ích bằng tiếng Việt. Nếu user nói tiếng Anh thì trả lời tiếng Anh."@
}

/// The model used when none is configured.
pub fn active_model(configured: &str) -> (r: String)
    ensures
        r@ == (if configured@.len() == 0 { "tinyllama"@ } else { configured@ }),
{
    if configured.is_empty() {
        String::from_str("tinyllama")
    } else {
        String::from_str(configured)
    }
}

/// The provider used when none is configured.
pub fn active_provider(configured: &str) -> (r: String)
    ensures
        r@ == (if configured@.len() == 0 { "openai"@ } else { configured@ }),
{
    if configured.is_empty() {
        String::from_str("openai")
    } else {
        String::from_str(configured)
    }
}

/// What the session offers the client.
pub fn capabilities(has_agent: bool) -> (r: Vec<&'static str>)
    ensures
        has_agent ==> r@.map_values(|s: &str| s@) == seq!["chat"@, "stream"@, "ping"@, "tools"@, "memory"@],
        !has_agent ==> r@.map_values(|s: &str| s@) == seq!["chat"@, "stream"@, "ping"@],
{
    let r = if has_agent {
        vec!["chat", "stream", "ping", "tools", "memory"]
    } else {
        vec!["chat", "stream", "ping"]
    };
    assert(has_agent ==> r@.map_values(|s: &str| s@) =~= seq!["chat"@, "stream"@, "ping"@, "tools"@, "memory"@]);
    assert(!has_agent ==> r@.map_values(|s: &str| s@) =~= seq!["chat"@, "stream"@, "ping"@]);
    r
}

/// Where a direct-mode chat goes.
#[derive(Debug, Clone, Copy, PartialEq, Eq, Structural)]
pub enum ChatRoute {
    Ollama,
    OpenAi,
    /// Ollama first, then OpenAI with gpt-4o-mini if that fails.
    OllamaThenOpenAi,
}

/// The route of a provider name: "ollama" and "brain" go to Ollama,
/// "openai" to OpenAI, anything else tries both.
pub open spec fn route_of(provider: Seq<char>) -> ChatRoute {
    if provider == "ollama"@ || provider == "brain"@ {
        ChatRoute::Ollama
    } else if provider == "openai"@ {
        ChatRoute::OpenAi
    } else {
        ChatRoute::OllamaThenOpenAi
    }
}

/// What the session does with a client message.
#[derive(Debug)]
pub enum WsAction {
    /// Send an error message.
    Error(String),
    /// Process the chat with the agent engine.
    AgentChat { request_id: String, stream: bool },
    /// Call the provider directly with the session history.
    DirectChat { request_id: String, stream: bool, route: ChatRoute },
    /// Answer with a pong.
    Pong,
    /// Answer with the session status.
    Status,
}

/// A WebSocket chat session: the requests counted so far, whether the agent
/// engine is available, the provider, and the history for direct calls.
pub struct WsSession {
    request_counter: u64,
    has_agent: bool,
    provider: String,
    history: Vec<(WsRole, String)>,
}

/// The direct-mode history with a new message, kept to the system prompt
/// and the last 20 messages once it exceeds 21.
pub open spec fn pushed_history(h: Seq<(WsRole, Seq<char>)>, m: (WsRole, Seq<char>)) -> Seq<(WsRole, Seq<char>)> {
    let n = h.push(m);
    if n.len() > 21 { seq![n[0]] + n.subrange(n.len() - 20, n.len() as int) } else { n }
}

/// The text of a request ID.
pub open spec fn request_id_text(n: nat) -> Seq<char> {
    "req_"@ + decimal(n)
}

impl WsSession {
    pub closed spec fn requests(self) -> u64 {
        self.request_counter
    }

    pub closed spec fn agent_available(self) -> bool {
        self.has_agent
    }

    pub closed spec fn provider_name(self) -> Seq<char> {
        self.provider@
    }

    /// The direct-mode history.
    pub closed spec fn history_view(self) -> Seq<(WsRole, Seq<char>)> {
        self.history@.map_values(|m: (WsRole, String)| (m.0, m.1@))
    }

    /// A new session: no requests, the history holding the system prompt.
    pub fn new(has_agent: bool, provider: &str) -> (r: Self)
        ensures
            r.requests() == 0,
            r.agent_available() == has_agent,
            r.provider_name() == provider@,
            r.history_view() == seq![(WsRole::System, ws_system_prompt())],
    {
        let mut history: Vec<(WsRole, String)> = Vec::new();
        history.push((WsRole::System, String::from_str("Bạn là BizClaw AI Assistant. Trả lời ngắn gọn, hữu ích bằng tiếng Việt. Nếu user nói tiếng Anh thì trả lời tiếng Anh.")));
        let r = WsSession { request_counter: 0, has_agent, provider: String::from_str(provider), history };
        assert(r.history_view() =~= seq![(WsRole::System, ws_system_prompt())]);
        r
    }

    /// Number of chat requests handled.
    pub fn request_count(&self) -> (r: u64)
        ensures
            r == self.requests(),
    {
        self.request_counter
    }

    /// The direct-mode history, oldest first.
    pub fn history(&self) -> (r: &Vec<(WsRole, String)>)
        ensures
            r@.map_values(|m: (WsRole, String)| (m.0, m.1@)) == self.history_view(),
    {
        &self.history
    }

    fn push_history(&mut self, role: WsRole, text: &str)
        ensures
            final(self).history_view() == pushed_history(old(self).history_view(), (role, text@)),
            final(self).requests() == old(self).requests(),
            final(self).agent_available() == old(self).agent_available(),
            final(self).provider_name() == old(self).provider_name(),
    {
        let ghost o = self.history_view();
        self.history.push((role, String::from_str(text)));
        let ghost n = o.push((role, text@));
        assert(self.history_view() =~= n);
        if self.history.len() > 21 {
            let drop = self.history.len() - 21;
            let mut k: usize = 0;
            while k < drop
                invariant
                    k <= drop,
                    drop == n.len() - 21,
                    self.history_view() == n.subrange(0, 1) + n.subrange(1 + k, n.len() as int),
                    self.history@.len() == n.len() - k,
                    self.request_counter == old(self).request_counter,
                    self.has_agent == old(self).has_agent,
                    self.provider == old(self).provider,
                decreases drop - k,
            {
                let ghost bv = self.history_view();
                let _gone = self.history.remove(1);
                assert(self.history_view() =~= bv.remove(1));
                assert(bv.remove(1) =~= n.subrange(0, 1) + n.subrange(1 + k + 1, n.len() as int));
                k = k + 1;
            }
            assert(self.history_view() =~= seq![n[0]] + n.subrange(n.len() - 20, n.len() as int));
        }
    }

    /// Handles a client message of type `msg_type` with `content` (the
    /// stream flag defaults to on).  Every chat counts as a request, an
    /// empty one too, which is then refused; in direct mode the user
    /// message joins the history.
    pub fn on_message(&mut self, msg_type: &str, content: &str, stream: Option<bool>) -> (r: WsAction)
        requires
            old(self).requests() < u64::MAX,
        ensures
            final(self).agent_available() == old(self).agent_available(),
            final(self).provider_name() == old(self).provider_name(),
            msg_type@ == "chat"@ ==> final(self).requests() == old(self).requests() + 1,
            msg_type@ == "chat"@ && content@.len() == 0 ==> (final(self).history_view() == old(self).history_view()
                && (r matches WsAction::Error(e) && e@ == "Empty message"@)),
            msg_type@ == "chat"@ && content@.len() > 0 && old(self).agent_available() ==> (
                final(self).history_view() == old(self).history_view()
                && (r matches WsAction::AgentChat { request_id, stream: s }
                && request_id@ == request_id_text(final(self).requests() as nat)
                && s == stream.unwrap_or(true))),
            msg_type@ == "chat"@ && content@.len() > 0 && !old(self).agent_available() ==> (
                final(self).history_view() == pushed_history(old(self).history_view(), (WsRole::User, content@))
                && (r matches WsAction::DirectChat { request_id, stream: s, route }
                && request_id@ == request_id_text(final(self).requests() as nat)
                && s == stream.unwrap_or(true)
                && route == route_of(old(self).provider_name()))),
            msg_type@ == "ping"@ ==> *final(self) == *old(self) && r is Pong,
            msg_type@ == "status"@ ==> *final(self) == *old(self) && r is Status,
            !(msg_type@ == "chat"@ || msg_type@ == "ping"@ || msg_type@ == "status"@) ==> (*final(self) == *old(self)
                && (r matches WsAction::Error(e) && e@ == "Unknown message type: "@ + msg_type@)),
    {
        proof {
            reveal_strlit("chat");
            reveal_strlit("ping");
            reveal_strlit("status");
            assert("chat"@.len() == 4 && "ping"@.len() == 4 && "status"@.len() == 6);
            assert("chat"@[0] == 'c' && "ping"@[0] == 'p');
        }
        if str_eq(msg_type, "chat") {
            self.request_counter = self.request_counter + 1;
            if content.is_empty() {
                return WsAction::Error(String::from_str("Empty message"));
            }
            let mut request_id = String::from_str("req_");
            let n = u64_to_string(self.request_counter);
            request_id.append(n.as_str());
            let s = match stream {
                Some(b) => b,
                None => true,
            };
            if self.has_agent {
                WsAction::AgentChat { request_id, stream: s }
            } else {
                self.push_history(WsRole::User, content);
                let route = route_for(self.provider.as_str());
                WsAction::DirectChat { request_id, stream: s, route }
            }
        } else if str_eq(msg_type, "ping") {
            WsAction::Pong
        } else if str_eq(msg_type, "status") {
            WsAction::Status
        } else {
            let mut e = String::from_str("Unknown message type: ");
            e.append(msg_type);
            WsAction::Error(e)
        }
    }

    /// Adds a provider's reply to the direct-mode history.
    pub fn record_reply(&mut self, response: &str)
        ensures
            final(self).history_view() == pushed_history(old(self).history_view(), (WsRole::Assistant, response@)),
            final(self).requests() == old(self).requests(),
            final(self).agent_available() == old(self).agent_available(),
            final(self).provider_name() == old(self).provider_name(),
    {
        self.push_history(WsRole::Assistant, response);
    }
}

/// The route of a provider name.
pub fn route_for(provider: &str) -> (r: ChatRoute)
    ensures
        r == route_of(provider@),
{
    if str_eq(provider, "ollama") || str_eq(provider, "brain") {
        ChatRoute::Ollama
    } else if str_eq(provider, "openai") {
        ChatRoute::OpenAi
    } else {
        ChatRoute::OllamaThenOpenAi
    }
}

fn sub_chars(s: &[char], a: usize, b: usize) -> (r: Vec<char>)
    requires
        a <= b <= s.len(),
    ensures
        r@ == s@.subrange(a as int, b as int),
{
    let mut r: Vec<char> = Vec::new();
    let mut i = a;
    while i < b
        invariant
            a <= i <= b <= s.len(),
            r@ == s@.subrange(a as int, i as int),
        decreases b - i,
    {
        r.push(s[i]);
        assert(s@.subrange(a as int, i + 1) =~= s@.subrange(a as int, i as int).push(s@[i as int]));
        i = i + 1;
    }
    r
}

/// The consecutive pieces of `s` of `size` characters (the last one
/// possibly shorter).
pub open spec fn chunks_of(s: Seq<char>, size: nat) -> Seq<Seq<char>>
    decreases s.len(),
{
    if s.len() == 0 || size == 0 {
        Seq::empty()
    } else if s.len() <= size {
        seq![s]
    } else {
        seq![s.take(size as int)] + chunks_of(s.skip(size as int), size)
    }
}

/// Cuts a reply into pieces of `size` characters for streaming.
pub fn chunk_reply(response: &str, size: usize) -> (r: Vec<String>)
    requires
        size > 0,
    ensures
        r@.map_values(|c: String| c@) == chunks_of(response@, size as nat),
{
    let cs = chars_of(response);
    let mut r: Vec<String> = Vec::new();
    let mut start: usize = 0;
    assert(cs@.skip(0) =~= cs@);
    while start < cs.len()
        invariant
            size > 0,
            start <= cs.len() || cs.len() == 0,
            cs@ == response@,
            start <= cs@.len(),
            r@.map_values(|c: String| c@) + chunks_of(cs@.skip(start as int), size as nat)
                == chunks_of(response@, size as nat),
        decreases cs.len() - start,
    {
        let end = if cs.len() - start <= size { cs.len() } else { start + size };
        let part = sub_chars(cs.as_slice(), start, end);
        let piece = string_from_chars(part.as_slice());
        proof {
            let rest = cs@.skip(start as int);
            assert(cs@.subrange(start as int, end as int) =~= if rest.len() <= size { rest } else { rest.take(size as int) });
            if rest.len() > size {
                assert(rest.skip(size as int) =~= cs@.skip(start + size));
                assert(chunks_of(rest, size as nat) == seq![rest.take(size as int)] + chunks_of(rest.skip(size as int), size as nat));
            } else {
                assert(cs@.skip(end as int) =~= Seq::<char>::empty());
            }
        }
        let ghost before = r@.map_values(|c: String| c@);
        r.push(piece);
        assert(r@.map_values(|c: String| c@) =~= before.push(piece@));
        start = end;
    }
    proof {
        assert(cs@.skip(start as int) =~= Seq::<char>::empty());
    }
    r
}


/// The pieces joined back, in order.
pub open spec fn joined(ss: Seq<Seq<char>>) -> Seq<char>
    decreases ss.len(),
{
    if ss.len() == 0 { Seq::empty() } else { ss[0] + joined(ss.drop_first()) }
}

/// The streamed chunks of a reply put together give the reply back, and
/// none is empty or longer than the chunk size.
pub proof fn lemma_chunks_rejoin(s: Seq<char>, size: nat)
    requires
        size > 0,
    ensures
        joined(chunks_of(s, size)) == s,
        forall|i: int| 0 <= i < chunks_of(s, size).len()
            ==> 0 < (#[trigger] chunks_of(s, size)[i]).len() <= size,
    decreases s.len(),
{
    if s.len() == 0 {
    } else if s.len() <= size {
        let c = chunks_of(s, size);
        assert(c.drop_first() =~= Seq::<Seq<char>>::empty());
        assert(joined(c.drop_first()) == Seq::<char>::empty());
        assert(s + Seq::<char>::empty() =~= s);
    } else {
        let rest = s.skip(size as int);
        lemma_chunks_rejoin(rest, size);
        let c = chunks_of(s, size);
        assert(c.drop_first() =~= chunks_of(rest, size));
        assert(c[0] == s.take(size as int));
        assert(joined(c) == c[0] + joined(c.drop_first()));
        assert(s.take(size as int) + rest =~= s);
        assert forall|i: int| 0 <= i < c.len() implies 0 < (#[trigger] c[i]).len() <= size by {
            if i > 0 {
                assert(c[i] == chunks_of(rest, size)[i - 1]);
            }
        }
    }
}

/// The direct-mode history never grows past the system prompt and 20
/// messages, and the system prompt stays first.
pub proof fn lemma_history_bounded(h: Seq<(WsRole, Seq<char>)>, m: (WsRole, Seq<char>))
    requires
        1 <= h.len() <= 21,
    ensures
        1 <= pushed_history(h, m).len() <= 21,
        pushed_history(h, m)[0] == h[0],
{
}

/// Characters per streamed chunk of an agent reply.
pub const CHUNK_CHARS: usize = 8;

/// A message that the server sends on the socket.
#[derive(Debug, Clone)]
pub enum WsOut {
    /// A chat request began; `agent` tells the agent engine handles it.
    ChatStart { request_id: String, provider: String, model: String, agent: bool },
    /// One streamed piece of a reply.
    ChatChunk { request_id: String, content: String, index: u64 },
    /// A whole reply, when it is not streamed.
    ChatResponse { request_id: String, content: String, provider: String, model: String },
    /// The end of a reply: the number of chunks streamed, if it was.
    ChatDone { request_id: String, total_tokens: Option<u64>, full_content: String },
    /// The engine failed on the request.
    ChatError { request_id: String, error: String },
    /// An error not tied to a request.
    Error(String),
}

/// The chat_start message of an agent-engine request.
pub fn agent_chat_start(request_id: &str, provider: &str, model: &str) -> (r: WsOut)
    ensures
        r matches WsOut::ChatStart { request_id: i, provider: p, model: m, agent }
            && i@ == request_id@ && p@ == provider@ && m@ == model@ && agent,
{
    WsOut::ChatStart {
        request_id: String::from_str(request_id),
        provider: String::from_str(provider),
        model: String::from_str(model),
        agent: true,
    }
}

/// The streamed reply `r` as sent after chat_start: chunk `i` of
/// `CHUNK_CHARS` characters with index `i`, then chat_done with the number
/// of chunks and the whole reply.
pub open spec fn streamed_reply(id: Seq<char>, r: Seq<char>, out: Seq<WsOut>) -> bool {
    let cs = chunks_of(r, CHUNK_CHARS as nat);
    &&& out.len() == cs.len() + 1
    &&& forall|i: int| 0 <= i < cs.len() ==> (#[trigger] out[i] matches WsOut::ChatChunk { request_id, content, index }
            && request_id@ == id && content@ == cs[i] && index == i)
    &&& out[cs.len() as int] matches WsOut::ChatDone { request_id, total_tokens, full_content }
    &&& out[cs.len() as int]->ChatDone_request_id@ == id
    &&& out[cs.len() as int]->ChatDone_total_tokens == Some(cs.len() as u64)
    &&& out[cs.len() as int]->ChatDone_full_content@ == r
}

/// What follows chat_start for an agent-engine request: the streamed
/// chunks and chat_done, or the whole reply and chat_done, or chat_error
/// with the engine's error, or "Agent engine not available" where there
/// is no engine.
pub fn agent_reply(request_id: &str, provider: &str, model: &str, stream: bool, outcome: Option<Result<String, String>>) -> (r: Vec<WsOut>)
    ensures
        match outcome {
            Some(Ok(resp)) => if stream {
                streamed_reply(request_id@, resp@, r@)
            } else {
                &&& r@.len() == 2
                &&& r@[0] matches WsOut::ChatResponse { request_id: i, content, provider: p, model: m }
                &&& r@[0]->ChatResponse_request_id@ == request_id@
                &&& r@[0]->ChatResponse_content@ == resp@
                &&& r@[0]->ChatResponse_provider@ == provider@
                &&& r@[0]->ChatResponse_model@ == model@
                &&& r@[1] matches WsOut::ChatDone { request_id: i, total_tokens, full_content }
                &&& r@[1]->ChatDone_request_id@ == request_id@
                &&& r@[1]->ChatDone_total_tokens is None
                &&& r@[1]->ChatDone_full_content@ == resp@
            },
            Some(Err(e)) => r@.len() == 1 && (r@[0] matches WsOut::ChatError { request_id: i, error }
                && i@ == request_id@ && error@ == e@),
            None => r@.len() == 1 && (r@[0] matches WsOut::Error(e) && e@ == "Agent engine not available"@),
        },
{
    let mut out: Vec<WsOut> = Vec::new();
    match outcome {
        Some(Ok(resp)) => {
            if stream {
                let pieces = chunk_reply(resp.as_str(), CHUNK_CHARS);
                let ghost cs = chunks_of(resp@, CHUNK_CHARS as nat);
                let mut i: usize = 0;
                while i < pieces.len()
                    invariant
                        i <= pieces.len(),
                        pieces@.map_values(|c: String| c@) == cs,
                        out@.len() == i,
                        forall|j: int| 0 <= j < i ==> (#[trigger] out@[j] matches WsOut::ChatChunk { request_id: rid, content, index }
                            && rid@ == request_id@ && content@ == cs[j] && index == j),
                    decreases pieces.len() - i,
                {
                    assert(pieces@[i as int]@ == cs[i as int]);
                    out.push(WsOut::ChatChunk {
                        request_id: String::from_str(request_id),
                        content: pieces[i].clone(),
                        index: i as u64,
                    });
                    i = i + 1;
                }
                out.push(WsOut::ChatDone {
                    request_id: String::from_str(request_id),
                    total_tokens: Some(pieces.len() as u64),
                    full_content: resp,
                });
            } else {
                out.push(WsOut::ChatResponse {
                    request_id: String::from_str(request_id),
                    content: resp.clone(),
                    provider: String::from_str(provider),
                    model: String::from_str(model),
                });
                out.push(WsOut::ChatDone { request_id: String::from_str(request_id), total_tokens: None, full_content: resp });
            }
        },
        Some(Err(e)) => {
            out.push(WsOut::ChatError { request_id: String::from_str(request_id), error: e });
        },
        None => {
            out.push(WsOut::Error(String::from_str("Agent engine not available")));
        },
    }
    out
}

/// A reply of `n` characters is streamed in ceil(n / size) chunks.
pub proof fn lemma_chunk_count(s: Seq<char>, size: nat)
    requires
        size > 0,
    ensures
        chunks_of(s, size).len() == (s.len() + size - 1) / size as int,
    decreases s.len(),
{
    if s.len() == 0 {
        assert((size - 1) / size as int == 0) by (nonlinear_arith)
            requires size > 0;
    } else if s.len() <= size {
        assert((s.len() + size - 1) / size as int == 1) by (nonlinear_arith)
            requires 0 < s.len() <= size;
    } else {
        let rest = s.skip(size as int);
        lemma_chunk_count(rest, size);
        assert(chunks_of(s, size).len() == 1 + chunks_of(rest, size).len());
        assert((s.len() + size - 1) / size as int == (rest.len() + size - 1) / size as int + 1) by (nonlinear_arith)
            requires rest.len() == s.len() - size, size > 0;
    }
}

/// The text of a streamed chunk.
pub open spec fn chunk_text(o: WsOut) -> Seq<char> {
    match o {
        WsOut::ChatChunk { content, .. } => content@,
        _ => Seq::empty(),
    }
}

/// After chat_start, an agent reply streamed to the client comes as
/// ceil(n / 8) chunks for a reply of n characters, which put together give
/// the reply back, and chat_done reports that many chunks.
pub proof fn lemma_streamed_reply_protocol(id: Seq<char>, r: Seq<char>, out: Seq<WsOut>)
    requires
        streamed_reply(id, r, out),
    ensures
        joined(out.take(out.len() - 1).map_values(|o: WsOut| chunk_text(o))) == r,
        out.len() - 1 == (r.len() + 7) / 8,
        out.last()->ChatDone_total_tokens == Some((out.len() - 1) as u64),
{
    let cs = chunks_of(r, CHUNK_CHARS as nat);
    let m = cs.len() as int;
    assert(out.take(m).map_values(|o: WsOut| chunk_text(o)) =~= cs) by {
        assert forall|i: int| 0 <= i < m implies out.take(m).map_values(|o: WsOut| chunk_text(o))[i] == cs[i] by {
            assert(out[i] matches WsOut::ChatChunk { .. });
        }
    }
    lemma_chunks_rejoin(r, CHUNK_CHARS as nat);
    lemma_chunk_count(r, CHUNK_CHARS as nat);
}


/// The messages of a streamed agent-engine reply, in order: chat_start for
/// request `id` in agent mode, then ceil(n / 8) chunks of a reply of n
/// characters, with indices 0, 1, ... and that request ID, which put
/// together give the reply back, then chat_done with that many chunks and
/// the whole reply.
pub proof fn lemma_agent_chat_order(id: Seq<char>, r: Seq<char>, start: WsOut, out: Seq<WsOut>)
    requires
        start matches WsOut::ChatStart { request_id, agent, .. } && request_id@ == id && agent,
        streamed_reply(id, r, out),
    ensures
        ({
            let all = seq![start] + out;
            let m: int = (r.len() + 7) as int / 8;
            &&& all.len() == m + 2
            &&& (all[0] matches WsOut::ChatStart { request_id, agent, .. } && request_id@ == id && agent)
            &&& forall|i: int| 1 <= i <= m ==> (#[trigger] all[i] matches WsOut::ChatChunk { request_id, index, .. }
                    && request_id@ == id && index == i - 1)
            &&& joined(all.subrange(1, m + 1).map_values(|o: WsOut| chunk_text(o))) == r
            &&& (all[m + 1] matches WsOut::ChatDone { request_id, total_tokens, full_content }
                    && request_id@ == id && total_tokens == Some(m as u64) && full_content@ == r)
        }),
{
    lemma_streamed_reply_protocol(id, r, out);
    lemma_chunk_count(r, CHUNK_CHARS as nat);
    let all = seq![start] + out;
    let m: int = (r.len() + 7) as int / 8;
    assert(all.subrange(1, m + 1) =~= out.take(out.len() - 1));
    assert forall|i: int| 1 <= i <= m implies (#[trigger] all[i] matches WsOut::ChatChunk { request_id, index, .. }
        && request_id@ == id && index == i - 1) by {
        assert(all[i] == out[i - 1]);
    }
    assert(all[m + 1] == out[m]);
}

} // verus!
