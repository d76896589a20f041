//! Multi-agent orchestration state: the registry of named agents with its
//! default agent, the inter-agent message log, and the decisions the
//! orchestrator takes around delegation, evaluation loops, quality gates
//! and team task claims.  Running an agent is the caller's business: the
//! registry is generic over the agent value it holds.

use vstd::prelude::*;
use vstd::string::*;
use vstd::utf8::*;
use crate::text::{
    chars_of, skip_chars, starts_with, starts_with_chars, str_eq, string_from_chars, trim, trim_chars,
};

verus! {

broadcast use vstd::utf8::group_utf8_lib;

/// The longest prefix of a UTF-8 byte string that has at most `max` bytes
/// and ends on a character boundary ends at `e`.
pub open spec fn truncation_point(bytes: Seq<u8>, max: int, e: int) -> bool {
    if bytes.len() <= max {
        e == bytes.len()
    } else {
        &&& 0 <= e <= max
        &&& is_char_boundary(bytes, e)
        &&& forall|j: int| e < j <= max ==> !is_char_boundary(bytes, j)
    }
}

/// Cuts `s` to at most `max_bytes` bytes without splitting a character.
pub fn safe_truncate(s: &str, max_bytes: usize) -> (r: &str)
    ensures
        exists|e: int| truncation_point(s.spec_bytes(), max_bytes as int, e)
            && r.spec_bytes() == s.spec_bytes().subrange(0, e),
{
    proof {
        encode_utf8_valid_utf8(s@);
        is_char_boundary_start_end_of_seq(s.spec_bytes());
    }
    let bytes = s.as_bytes();
    if bytes.len() <= max_bytes {
        assert(s.spec_bytes().subrange(0, s.spec_bytes().len() as int) =~= s.spec_bytes());
        assert(truncation_point(s.spec_bytes(), max_bytes as int, s.spec_bytes().len() as int));
        return s;
    }
    let mut end = max_bytes;
    while end > 0 && !s.is_char_boundary(end)
        invariant
            end <= max_bytes < s.spec_bytes().len(),
            valid_utf8(s.spec_bytes()),
            forall|j: int| end < j <= max_bytes ==> !is_char_boundary(s.spec_bytes(), j),
        decreases end,
    {
        end = end - 1;
    }
    let (head, _) = s.split_at(end);
    assert(truncation_point(s.spec_bytes(), max_bytes as int, end as int));
    head
}

/// Kind of a quality gate.
#[derive(Debug, Clone, Copy, PartialEq, Eq, Structural)]
pub enum QualityGateType {
    /// A shell command that receives the output; exit status 0 passes.
    Command,
    /// Another agent reviews the output.
    Agent,
}

/// A check run on an agent's output before it is returned.
#[derive(Debug, Clone)]
pub struct QualityGate {
    pub gate_type: QualityGateType,
    /// The command line, or the name of the reviewing agent.
    pub target: String,
    /// The kind of event checked.
    pub event: String,
    /// Whether a failing gate rejects the output.
    pub block_on_failure: bool,
}

/// A named agent with its metadata.
pub struct NamedAgent<A> {
    pub agent: A,
    pub name: String,
    pub role: String,
    pub description: String,
    pub active: bool,
    pub message_count: u64,
    pub quality_gates: Vec<QualityGate>,
    pub max_delegation_load: u32,
}

/// A message between agents or from the user, with the reply if any.
#[derive(Debug, Clone)]
pub struct AgentMessage {
    pub from: String,
    pub to: String,
    pub content: String,
    pub response: Option<String>,
    /// RFC 3339 time at which the message was handled.
    pub timestamp: String,
}

/// Metadata of a registered agent as the model sees it.
pub ghost struct AgentEntryV {
    pub name: Seq<char>,
    pub role: Seq<char>,
    pub description: Seq<char>,
    pub active: bool,
    pub message_count: u64,
    pub max_delegation_load: u32,
    pub gates: Seq<QualityGate>,
}

impl<A> NamedAgent<A> {
    pub open spec fn entry(self) -> AgentEntryV {
        AgentEntryV {
            name: self.name@,
            role: self.role@,
            description: self.description@,
            active: self.active,
            message_count: self.message_count,
            max_delegation_load: self.max_delegation_load,
            gates: self.quality_gates@,
        }
    }
}

/// The first position whose name is `name`.
pub open spec fn position_of(names: Seq<Seq<char>>, name: Seq<char>) -> Option<int> {
    if exists|i: int| 0 <= i < names.len() && names[i] == name {
        Some(choose|i: int| 0 <= i < names.len() && names[i] == name
            && forall|j: int| 0 <= j < i ==> names[j] != name)
    } else {
        None
    }
}

/// Multi-agent orchestrator state: named agents (names unique, in
/// registration order), the default agent and the message log.
pub struct Orchestrator<A> {
    agents: Vec<NamedAgent<A>>,
    default_agent: Option<String>,
    message_log: Vec<AgentMessage>,
}

impl<A> Orchestrator<A> {
    /// The registered agents' metadata, in registration order.
    pub closed spec fn entries(self) -> Seq<AgentEntryV> {
        self.agents@.map_values(|a: NamedAgent<A>| a.entry())
    }

    /// The registered names, in registration order.
    pub open spec fn names(self) -> Seq<Seq<char>> {
        self.entries().map_values(|e: AgentEntryV| e.name)
    }

    /// The default agent's name.
    pub closed spec fn default_name(self) -> Option<Seq<char>> {
        match self.default_agent {
            Some(d) => Some(d@),
            None => None,
        }
    }

    /// The inter-agent message log, oldest first.
    pub closed spec fn log(self) -> Seq<AgentMessage> {
        self.message_log@
    }

    /// The agent values, in registration order.
    pub closed spec fn agent_values(self) -> Seq<A> {
        self.agents@.map_values(|a: NamedAgent<A>| a.agent)
    }

    /// Names are unique; there is a default agent exactly when some agent is
    /// registered, and it is one of them.
    pub open spec fn wf(self) -> bool {
        &&& forall|i: int, j: int| 0 <= i < j < self.names().len() ==> self.names()[i] != self.names()[j]
        &&& (self.default_name() is None <==> self.names().len() == 0)
        &&& (self.default_name() matches Some(d) ==> self.names().contains(d))
    }

    proof fn lemma_views(self)
        ensures
            self.entries().len() == self.agents@.len(),
            self.names().len() == self.agents@.len(),
            self.agent_values().len() == self.agents@.len(),
            forall|i: int| 0 <= i < self.agents@.len() ==> #[trigger] self.names()[i] == self.agents@[i].name@,
            forall|i: int| 0 <= i < self.agents@.len() ==> #[trigger] self.entries()[i] == self.agents@[i].entry(),
    {
    }

    /// An empty orchestrator.
    pub fn new() -> (r: Self)
        ensures
            r.wf(),
            r.entries() == Seq::<AgentEntryV>::empty(),
            r.default_name() is None,
            r.log() == Seq::<AgentMessage>::empty(),
    {
        let r = Orchestrator { agents: Vec::new(), default_agent: None, message_log: Vec::new() };
        proof {
            assert(r.entries() =~= Seq::<AgentEntryV>::empty());
        }
        r
    }

    fn find(&self, name: &str) -> (r: Option<usize>)
        ensures
            match r {
                Some(i) => i < self.agents@.len() && self.agents@[i as int].name@ == name@
                    && forall|j: int| 0 <= j < i ==> self.agents@[j].name@ != name@,
                None => forall|j: int| 0 <= j < self.agents@.len() ==> self.agents@[j].name@ != name@,
            },
    {
        let mut i: usize = 0;
        while i < self.agents.len()
            invariant
                i <= self.agents.len(),
                forall|j: int| 0 <= j < i ==> self.agents@[j].name@ != name@,
            decreases self.agents.len() - i,
        {
            if str_eq(self.agents[i].name.as_str(), name) {
                return Some(i);
            }
            i = i + 1;
        }
        None
    }

    proof fn lemma_position(self, name: Seq<char>, i: int)
        requires
            0 <= i < self.agents@.len(),
            self.agents@[i].name@ == name,
            forall|j: int| 0 <= j < i ==> self.agents@[j].name@ != name,
        ensures
            position_of(self.names(), name) == Some(i),
    {
        self.lemma_views();
        let names = self.names();
        assert(names[i] == name);
        let k = choose|k: int| 0 <= k < names.len() && names[k] == name
            && forall|j: int| 0 <= j < k ==> names[j] != name;
        if k < i {
            assert(self.agents@[k].name@ == name);
        }
        if k > i {
            assert(names[i] != name);
        }
    }

    proof fn lemma_absent(self, name: Seq<char>)
        requires
            forall|j: int| 0 <= j < self.agents@.len() ==> self.agents@[j].name@ != name,
        ensures
            position_of(self.names(), name) is None,
            !self.names().contains(name),
    {
        self.lemma_views();
        if self.names().contains(name) {
            let k = choose|k: int| 0 <= k < self.names().len() && self.names()[k] == name;
            assert(self.agents@[k].name@ == name);
        }
    }

    /// Whether an agent with this name is registered.
    pub fn has_agent(&self, name: &str) -> (r: bool)
        ensures
            r == self.names().contains(name@),
    {
        proof {
            self.lemma_views();
        }
        match self.find(name) {
            Some(i) => {
                proof {
                    assert(self.names()[i as int] == name@);
                }
                true
            },
            None => {
                proof {
                    self.lemma_absent(name@);
                }
                false
            },
        }
    }

    /// Number of registered agents.
    pub fn agent_count(&self) -> (r: usize)
        ensures
            r == self.entries().len(),
    {
        proof {
            self.lemma_views();
        }
        self.agents.len()
    }

    /// The default agent's name.
    pub fn default_agent_name(&self) -> (r: Option<&str>)
        ensures
            match self.default_name() {
                Some(d) => r is Some && r->0@ == d,
                None => r is None,
            },
    {
        match &self.default_agent {
            Some(d) => Some(d.as_str()),
            None => None,
        }
    }

    /// Registers an agent (active, no messages, no quality gates, delegation
    /// load 10).  An agent registered under an existing name replaces it in
    /// place.  The first agent of an empty orchestrator becomes the default.
    pub fn add_agent(&mut self, name: &str, role: &str, description: &str, agent: A)
        requires
            old(self).wf(),
        ensures
            final(self).wf(),
            ({
                let e = AgentEntryV {
                    name: name@,
                    role: role@,
                    description: description@,
                    active: true,
                    message_count: 0,
                    max_delegation_load: 10,
                    gates: Seq::empty(),
                };
                match position_of(old(self).names(), name@) {
                    Some(i) => final(self).entries() == old(self).entries().update(i, e)
                        && final(self).agent_values() == old(self).agent_values().update(i, agent),
                    None => final(self).entries() == old(self).entries().push(e)
                        && final(self).agent_values() == old(self).agent_values().push(agent),
                }
            }),
            final(self).default_name() == if old(self).entries().len() == 0 {
                Some(name@)
            } else {
                old(self).default_name()
            },
            final(self).log() == old(self).log(),
    {
        proof {
            old(self).lemma_views();
        }
        let is_first = self.agents.len() == 0;
        let named = NamedAgent {
            agent,
            name: name.to_owned(),
            role: role.to_owned(),
            description: description.to_owned(),
            active: true,
            message_count: 0,
            quality_gates: Vec::new(),
            max_delegation_load: 10,
        };
        let ghost e = named.entry();
        match self.find(name) {
            Some(i) => {
                proof {
                    old(self).lemma_position(name@, i as int);
                }
                self.agents.set(i, named);
                proof {
                    self.lemma_views();
                    assert(self.entries() =~= old(self).entries().update(i as int, e));
                    assert(self.agent_values() =~= old(self).agent_values().update(i as int, agent));
                    assert(self.names() =~= old(self).names());
                }
            },
            None => {
                proof {
                    old(self).lemma_absent(name@);
                }
                self.agents.push(named);
                proof {
                    self.lemma_views();
                    assert(self.entries() =~= old(self).entries().push(e));
                    assert(self.agent_values() =~= old(self).agent_values().push(agent));
                    assert(self.names() =~= old(self).names().push(name@));
                    assert(self.names()[old(self).names().len() as int] == name@);
                    if let Some(d) = old(self).default_name() {
                        let k = choose|k: int| 0 <= k < old(self).names().len() && old(self).names()[k] == d;
                        assert(self.names()[k] == d);
                    }
                }
            },
        }
        if is_first {
            self.default_agent = Some(name.to_owned());
            proof {
                assert(self.names()[0] == name@);
            }
        }
    }

    /// Removes the agent with this name; reports whether there was one.  If
    /// it was the default, the first remaining agent (if any) becomes the
    /// default.
    pub fn remove_agent(&mut self, name: &str) -> (removed: bool)
        requires
            old(self).wf(),
        ensures
            final(self).wf(),
            removed == old(self).names().contains(name@),
            match position_of(old(self).names(), name@) {
                Some(i) => final(self).entries() == old(self).entries().remove(i)
                    && final(self).agent_values() == old(self).agent_values().remove(i),
                None => final(self).entries() == old(self).entries()
                    && final(self).agent_values() == old(self).agent_values(),
            },
            final(self).default_name() == if old(self).default_name() == Some(name@) {
                if final(self).names().len() == 0 { None } else { Some(final(self).names()[0]) }
            } else {
                old(self).default_name()
            },
            final(self).log() == old(self).log(),
    {
        proof {
            old(self).lemma_views();
        }
        let removed = match self.find(name) {
            Some(i) => {
                proof {
                    old(self).lemma_position(name@, i as int);
                    assert(old(self).names()[i as int] == name@);
                }
                let _gone = self.agents.remove(i);
                proof {
                    self.lemma_views();
                    assert(self.entries() =~= old(self).entries().remove(i as int));
                    assert(self.agent_values() =~= old(self).agent_values().remove(i as int));
                    assert(self.names() =~= old(self).names().remove(i as int));
                }
                true
            },
            None => {
                proof {
                    old(self).lemma_absent(name@);
                    assert(self.entries() =~= old(self).entries());
                    assert(self.agent_values() =~= old(self).agent_values());
                }
                false
            },
        };
        let is_default = match &self.default_agent {
            Some(d) => str_eq(d.as_str(), name),
            None => false,
        };
        if is_default {
            if self.agents.len() == 0 {
                self.default_agent = None;
            } else {
                let first = self.agents[0].name.clone();
                self.default_agent = Some(first);
                proof {
                    self.lemma_views();
                    assert(self.names().contains(self.names()[0]));
                }
            }
        } else {
            proof {
                if let Some(d) = old(self).default_name() {
                    let k = choose|k: int| 0 <= k < old(self).names().len() && old(self).names()[k] == d;
                    assert(d != name@);
                    if removed {
                        let i = position_of(old(self).names(), name@)->Some_0;
                        if k < i {
                            assert(self.names()[k] == d);
                        } else {
                            assert(k != i);
                            assert(self.names()[k - 1] == d);
                        }
                    } else {
                        assert(self.names()[k] == d);
                    }
                }
            }
        }
        removed
    }

    /// Makes the named agent the default, if it is registered.
    pub fn set_default(&mut self, name: &str)
        requires
            old(self).wf(),
        ensures
            final(self).wf(),
            final(self).entries() == old(self).entries(),
            final(self).agent_values() == old(self).agent_values(),
            final(self).default_name() == if old(self).names().contains(name@) {
                Some(name@)
            } else {
                old(self).default_name()
            },
            final(self).log() == old(self).log(),
    {
        if self.has_agent(name) {
            self.default_agent = Some(name.to_owned());
        }
    }

    /// Changes the role and/or description of the named agent; reports
    /// whether it is registered.
    pub fn update_agent(&mut self, name: &str, role: Option<&str>, description: Option<&str>) -> (r: bool)
        requires
            old(self).wf(),
        ensures
            final(self).wf(),
            r == old(self).names().contains(name@),
            final(self).agent_values() == old(self).agent_values(),
            final(self).default_name() == old(self).default_name(),
            final(self).log() == old(self).log(),
            match position_of(old(self).names(), name@) {
                Some(i) => final(self).entries() == old(self).entries().update(i, AgentEntryV {
                    role: match role { Some(x) => x@, None => old(self).entries()[i].role },
                    description: match description {
                        Some(x) => x@,
                        None => old(self).entries()[i].description,
                    },
                    ..old(self).entries()[i]
                }),
                None => final(self).entries() == old(self).entries(),
            },
    {
        proof {
            old(self).lemma_views();
        }
        match self.find(name) {
            Some(i) => {
                proof {
                    old(self).lemma_position(name@, i as int);
                    assert(old(self).names()[i as int] == name@);
                }
                let mut named = self.agents.remove(i);
                if let Some(x) = role {
                    named.role = x.to_owned();
                }
                if let Some(x) = description {
                    named.description = x.to_owned();
                }
                self.agents.insert(i, named);
                proof {
                    self.lemma_views();
                    assert(self.agents@ =~= old(self).agents@.update(i as int, named));
                    assert(self.entries() =~= old(self).entries().update(i as int, named.entry()));
                    assert(self.agent_values() =~= old(self).agent_values());
                    assert(self.names() =~= old(self).names());
                }
                true
            },
            None => {
                proof {
                    old(self).lemma_absent(name@);
                }
                false
            },
        }
    }

    /// The agent value registered under this name, for use by the caller.
    pub fn get_agent(&self, name: &str) -> (r: Option<&A>)
        ensures
            match position_of(self.names(), name@) {
                Some(i) => r is Some && *r->0 == self.agent_values()[i],
                None => r is None,
            },
    {
        proof {
            self.lemma_views();
        }
        match self.find(name) {
            Some(i) => {
                proof {
                    self.lemma_position(name@, i as int);
                }
                Some(&self.agents[i].agent)
            },
            None => {
                proof {
                    self.lemma_absent(name@);
                }
                None
            },
        }
    }

    /// Mutable access to the agent value registered under this name.
    pub fn get_agent_mut(&mut self, name: &str) -> (r: Option<&mut A>)
        ensures
            match position_of(old(self).names(), name@) {
                Some(i) => r is Some && *r->0 == old(self).agent_values()[i]
                    && final(self).agent_values() == old(self).agent_values().update(i, *final(r->0))
                    && final(self).entries() == old(self).entries()
                    && final(self).default_name() == old(self).default_name()
                    && final(self).log() == old(self).log(),
                None => r is None && final(self).agent_values() == old(self).agent_values()
                    && final(self).entries() == old(self).entries()
                    && final(self).default_name() == old(self).default_name()
                    && final(self).log() == old(self).log(),
            },
    {
        proof {
            old(self).lemma_views();
        }
        match self.find(name) {
            Some(i) => {
                proof {
                    old(self).lemma_position(name@, i as int);
                }
                let named = &mut self.agents[i];
                let r = &mut named.agent;
                Some(r)
            },
            None => {
                proof {
                    old(self).lemma_absent(name@);
                }
                None
            },
        }
    }

    /// Replaces the agent value registered under this name (metadata and
    /// default unchanged); reports whether the name is registered.
    pub fn replace_agent(&mut self, name: &str, agent: A) -> (r: bool)
        requires
            old(self).wf(),
        ensures
            final(self).wf(),
            r == old(self).names().contains(name@),
            final(self).entries() == old(self).entries(),
            final(self).default_name() == old(self).default_name(),
            final(self).log() == old(self).log(),
            match position_of(old(self).names(), name@) {
                Some(i) => final(self).agent_values() == old(self).agent_values().update(i, agent),
                None => final(self).agent_values() == old(self).agent_values(),
            },
    {
        proof {
            old(self).lemma_views();
        }
        match self.find(name) {
            Some(i) => {
                proof {
                    old(self).lemma_position(name@, i as int);
                    assert(old(self).names()[i as int] == name@);
                }
                let mut named = self.agents.remove(i);
                named.agent = agent;
                self.agents.insert(i, named);
                proof {
                    self.lemma_views();
                    assert(self.agents@ =~= old(self).agents@.update(i as int, named));
                    assert(self.entries() =~= old(self).entries());
                    assert(self.agent_values() =~= old(self).agent_values().update(i as int, agent));
                    assert(self.names() =~= old(self).names());
                }
                true
            },
            None => {
                proof {
                    old(self).lemma_absent(name@);
                }
                false
            },
        }
    }
}


/// What an evaluator's answer says.
#[derive(Debug, Clone, PartialEq, Eq)]
pub enum EvalVerdict {
    /// The answer starts with APPROVED.
    Approved,
    /// Anything else; the feedback for the next round.
    Rejected(String),
}

/// The feedback in an evaluator's rejection: the trimmed answer without a
/// leading "REJECTED:" or "REJECTED", trimmed again.
pub open spec fn rejection_feedback(t: Seq<char>) -> Seq<char> {
    if starts_with(t, "REJECTED:"@) {
        trim(t.subrange(9, t.len() as int))
    } else if starts_with(t, "REJECTED"@) {
        trim(t.subrange(8, t.len() as int))
    } else {
        trim(t)
    }
}

/// Reads an evaluator's answer: approved if its trimmed text starts with
/// "APPROVED", else rejected with the feedback that follows "REJECTED:".
pub fn evaluate_verdict(response: &str) -> (r: EvalVerdict)
    ensures
        starts_with(trim(response@), "APPROVED"@) ==> r == EvalVerdict::Approved,
        !starts_with(trim(response@), "APPROVED"@) ==> r is Rejected
            && r->Rejected_0@ == rejection_feedback(trim(response@)),
{
    let cs = chars_of(response);
    let t = trim_chars(cs.as_slice());
    let approved = chars_of("APPROVED");
    let rej_colon = chars_of("REJECTED:");
    let rej = chars_of("REJECTED");
    proof {
        reveal_strlit("REJECTED:");
        reveal_strlit("REJECTED");
    }
    if starts_with_chars(t.as_slice(), approved.as_slice()) {
        return EvalVerdict::Approved;
    }
    let rest = if starts_with_chars(t.as_slice(), rej_colon.as_slice()) {
        skip_chars(t.as_slice(), 9)
    } else if starts_with_chars(t.as_slice(), rej.as_slice()) {
        skip_chars(t.as_slice(), 8)
    } else {
        t
    };
    let fb = trim_chars(rest.as_slice());
    EvalVerdict::Rejected(string_from_chars(fb.as_slice()))
}

/// Whether a reviewing agent rejected the output (its trimmed answer
/// starts with "REJECTED").
pub fn review_rejects(review: &str) -> (r: bool)
    ensures
        r == starts_with(trim(review@), "REJECTED"@),
{
    let cs = chars_of(review);
    let t = trim_chars(cs.as_slice());
    let rej = chars_of("REJECTED");
    starts_with_chars(t.as_slice(), rej.as_slice())
}

/// The number of evaluate-loop rounds actually run: at most 5.
pub open spec fn clamp_rounds_spec(max_rounds: u32) -> u32 {
    if max_rounds < 5 { max_rounds } else { 5 }
}

/// The number of evaluate-loop rounds actually run: at most 5.
pub fn clamp_rounds(max_rounds: u32) -> (r: u32)
    ensures
        r == clamp_rounds_spec(max_rounds),
{
    if max_rounds < 5 { max_rounds } else { 5 }
}

/// What the evaluator is asked about an output.
pub open spec fn evaluation_prompt_text(task: Seq<char>, criteria: Seq<char>, output: Seq<char>) -> Seq<char> {
    "[Quality Evaluation]\nTask: "@ + task + "\nPass criteria: "@ + criteria
        + "\nOutput to evaluate:\n---\n"@ + output
        + "\n---\nRespond with EXACTLY one of:\nAPPROVED - if the output meets the criteria\nREJECTED: <feedback> - if the output needs improvement"@
}

/// What the evaluator is asked about an output.
pub fn evaluation_prompt(task: &str, criteria: &str, output: &str) -> (r: String)
    ensures
        r@ == evaluation_prompt_text(task@, criteria@, output@),
{
    let mut r = String::from_str("[Quality Evaluation]\nTask: ");
    r.append(task);
    r.append("\nPass criteria: ");
    r.append(criteria);
    r.append("\nOutput to evaluate:\n---\n");
    r.append(output);
    r.append("\n---\nRespond with EXACTLY one of:\nAPPROVED - if the output meets the criteria\nREJECTED: <feedback> - if the output needs improvement");
    r
}

/// What a reviewing agent of a quality gate is asked.
pub open spec fn review_prompt_text(event: Seq<char>, output: Seq<char>) -> Seq<char> {
    "[Quality Gate Review]\nEvent: "@ + event + "\nPlease review and validate this output:\n---\n"@ + output
        + "\n---\nRespond APPROVED or REJECTED: <reason>"@
}

/// What a reviewing agent of a quality gate is asked.
pub fn review_prompt(event: &str, output: &str) -> (r: String)
    ensures
        r@ == review_prompt_text(event@, output@),
{
    let mut r = String::from_str("[Quality Gate Review]\nEvent: ");
    r.append(event);
    r.append("\nPlease review and validate this output:\n---\n");
    r.append(output);
    r.append("\n---\nRespond APPROVED or REJECTED: <reason>");
    r
}

/// What the evaluate loop does next.
#[derive(Debug, Clone)]
pub enum EvalAction {
    /// Ask the generator for round `round`, with the evaluator's feedback
    /// from the round before where there is some.
    Generate { round: u32, feedback: Option<String> },
    /// Ask the evaluator about this output (see `evaluation_prompt`).
    Evaluate { output: String },
    /// The loop is over.
    Finish(EvaluateResult),
}

/// How an evaluate loop ended.
#[derive(Debug, Clone)]
pub struct EvaluateResult {
    pub approved: bool,
    pub output: String,
    pub feedback: Option<String>,
    pub rounds_used: u32,
    pub max_rounds: u32,
}

/// An evaluate loop in progress: the round, the round limit, the last
/// output, and whether it awaits the evaluator.
pub struct EvalLoop {
    round: u32,
    max_rounds: u32,
    last_output: String,
    evaluating: bool,
    done: bool,
}

impl EvalLoop {
    pub closed spec fn round_spec(self) -> u32 {
        self.round
    }

    pub closed spec fn max_spec(self) -> u32 {
        self.max_rounds
    }

    pub closed spec fn output_spec(self) -> Seq<char> {
        self.last_output@
    }

    pub closed spec fn evaluating_spec(self) -> bool {
        self.evaluating
    }

    pub closed spec fn done_spec(self) -> bool {
        self.done
    }

    /// Rounds run from 1 to the limit, which is at most 5.
    pub closed spec fn wf(self) -> bool {
        self.max_rounds <= 5 && (!self.done ==> 1 <= self.round <= self.max_rounds)
    }

    /// A loop of at most `max_rounds` rounds, capped at 5, and its first
    /// action: generate round 1 without feedback; with no round at all the
    /// loop is over at once, unapproved with no output.
    pub fn begin(max_rounds: u32) -> (r: (Self, EvalAction))
        ensures
            r.0.wf(),
            r.0.max_spec() == clamp_rounds_spec(max_rounds),
            max_rounds > 0 ==> (!r.0.done_spec() && !r.0.evaluating_spec() && r.0.round_spec() == 1
                && (r.1 matches EvalAction::Generate { round, feedback } && round == 1 && feedback is None)),
            max_rounds == 0 ==> (r.0.done_spec() && (r.1 matches EvalAction::Finish(res)
                && !res.approved && res.output@.len() == 0 && res.feedback is None
                && res.rounds_used == 0 && res.max_rounds == 0)),
    {
        let max = clamp_rounds(max_rounds);
        if max == 0 {
            let st = EvalLoop { round: 0, max_rounds: 0, last_output: String::new(), evaluating: false, done: true };
            let res = EvaluateResult { approved: false, output: String::new(), feedback: None, rounds_used: 0, max_rounds: 0 };
            return (st, EvalAction::Finish(res));
        }
        let st = EvalLoop { round: 1, max_rounds: max, last_output: String::new(), evaluating: false, done: false };
        (st, EvalAction::Generate { round: 1, feedback: None })
    }

    /// The generator answered: its output goes to the evaluator.
    pub fn generated(&mut self, output: String) -> (r: EvalAction)
        requires
            old(self).wf(),
            !old(self).done_spec(),
            !old(self).evaluating_spec(),
        ensures
            final(self).wf(),
            final(self).evaluating_spec(),
            !final(self).done_spec(),
            final(self).round_spec() == old(self).round_spec(),
            final(self).max_spec() == old(self).max_spec(),
            final(self).output_spec() == output@,
            r matches EvalAction::Evaluate { output: o } && o@ == output@,
    {
        self.last_output = output;
        self.evaluating = true;
        EvalAction::Evaluate { output: self.last_output.clone() }
    }

    /// The evaluator answered: approval ends the loop with the output; a
    /// rejection's feedback goes to the next round, or, after the last
    /// round, the loop ends unapproved with the last output and feedback.
    pub fn evaluated(&mut self, response: &str) -> (r: EvalAction)
        requires
            old(self).wf(),
            !old(self).done_spec(),
            old(self).evaluating_spec(),
        ensures
            final(self).wf(),
            final(self).max_spec() == old(self).max_spec(),
            starts_with(trim(response@), "APPROVED"@) ==> (final(self).done_spec()
                && (r matches EvalAction::Finish(res) && res.approved && res.output@ == old(self).output_spec()
                    && res.feedback is None && res.rounds_used == old(self).round_spec()
                    && res.max_rounds == old(self).max_spec())),
            !starts_with(trim(response@), "APPROVED"@) && old(self).round_spec() < old(self).max_spec() ==> (
                !final(self).done_spec() && !final(self).evaluating_spec()
                && final(self).round_spec() == old(self).round_spec() + 1
                && (r matches EvalAction::Generate { round, feedback } && round == old(self).round_spec() + 1
                    && (feedback matches Some(f) && f@ == rejection_feedback(trim(response@))))),
            !starts_with(trim(response@), "APPROVED"@) && old(self).round_spec() == old(self).max_spec() ==> (
                final(self).done_spec()
                && (r matches EvalAction::Finish(res) && !res.approved && res.output@ == old(self).output_spec()
                    && (res.feedback matches Some(f) && f@ == rejection_feedback(trim(response@)))
                    && res.rounds_used == old(self).max_spec() && res.max_rounds == old(self).max_spec())),
    {
        match evaluate_verdict(response) {
            EvalVerdict::Approved => {
                self.done = true;
                self.evaluating = false;
                EvalAction::Finish(EvaluateResult {
                    approved: true,
                    output: self.last_output.clone(),
                    feedback: None,
                    rounds_used: self.round,
                    max_rounds: self.max_rounds,
                })
            },
            EvalVerdict::Rejected(fb) => {
                self.evaluating = false;
                if self.round < self.max_rounds {
                    self.round = self.round + 1;
                    EvalAction::Generate { round: self.round, feedback: Some(fb) }
                } else {
                    self.done = true;
                    EvalAction::Finish(EvaluateResult {
                        approved: false,
                        output: self.last_output.clone(),
                        feedback: Some(fb),
                        rounds_used: self.max_rounds,
                        max_rounds: self.max_rounds,
                    })
                }
            },
        }
    }
}

/// Status of a task on a team task board.
#[derive(Debug, Clone, Copy, PartialEq, Eq, Structural)]
pub enum TaskStatus {
    Pending,
    InProgress,
    Completed,
    Failed,
}

/// Why a task cannot be claimed.
#[derive(Debug, Clone, PartialEq, Eq)]
pub enum ClaimError {
    /// A task it depends on exists and is not completed.
    Blocked { dependency: String, status: TaskStatus },
    /// The task is already assigned.
    AlreadyClaimed { task: String, by: String },
}

/// A dependency blocks a claim when it exists and is not completed.
pub open spec fn blocks(st: Option<TaskStatus>) -> bool {
    match st {
        Some(s) => s != TaskStatus::Completed,
        None => false,
    }
}

/// The first dependency (in list order) that exists and is not completed.
pub open spec fn first_blocker(deps: Seq<(String, Option<TaskStatus>)>) -> Option<int> {
    if exists|i: int| 0 <= i < deps.len() && blocks(#[trigger] deps[i].1) {
        Some(choose|i: int| 0 <= i < deps.len() && blocks(#[trigger] deps[i].1)
            && forall|j: int| 0 <= j < i ==> !blocks(deps[j].1))
    } else {
        None
    }
}

/// Decides whether a task may be claimed: every dependency that exists must
/// be completed (`deps` pairs each dependency id with its status, `None`
/// where it does not exist), and the task must not be assigned yet.
pub fn check_claim(task_id: &str, assigned_to: &Option<String>, deps: &[(String, Option<TaskStatus>)]) -> (r: Result<(), ClaimError>)
    ensures
        match first_blocker(deps@) {
            Some(i) => r matches Err(ClaimError::Blocked { dependency, status })
                && dependency@ == deps@[i].0@ && Some(status) == deps@[i].1,
            None => match assigned_to {
                Some(by) => r matches Err(ClaimError::AlreadyClaimed { task, by: b })
                    && task@ == task_id@ && b@ == by@,
                None => r is Ok,
            },
        },
{
    let mut i: usize = 0;
    while i < deps.len()
        invariant
            i <= deps.len(),
            forall|j: int| 0 <= j < i ==> !blocks(#[trigger] deps@[j].1),
        decreases deps.len() - i,
    {
        match deps[i].1 {
            Some(st) => {
                if st != TaskStatus::Completed {
                    proof {
                        assert(blocks(deps@[i as int].1));
                        let k = choose|k: int| 0 <= k < deps@.len() && blocks(#[trigger] deps@[k].1)
                            && forall|j: int| 0 <= j < k ==> !blocks(deps@[j].1);
                        assert(k == i);
                    }
                    return Err(ClaimError::Blocked { dependency: deps[i].0.clone(), status: st });
                }
            },
            None => {},
        }
        i = i + 1;
    }
    match assigned_to {
        Some(by) => Err(ClaimError::AlreadyClaimed { task: task_id.to_owned(), by: by.clone() }),
        None => Ok(()),
    }
}

/// Why a delegation is refused.
#[derive(Debug, Clone, PartialEq, Eq)]
pub enum DelegationError {
    /// The named agent is not registered.
    AgentNotFound(String),
    /// Permission links exist for the delegating agent and none allows it.
    NoPermission { from: String, to: String },
    /// The receiving agent has as many active delegations as it may.
    AtMaxLoad { agent: String, active: u32, max: u32 },
}

/// What the orchestration store says about a delegation.
#[derive(Debug, Clone, Copy)]
pub struct DelegationFacts {
    /// The delegating agent has permission links.
    pub has_links: bool,
    /// One of its links allows this delegation.
    pub permitted: bool,
    /// Delegations the receiving agent is running now.
    pub active_count: u32,
}

impl<A> Orchestrator<A> {
    /// Decides whether `from` may delegate to `to`: both must be registered
    /// and, where the store is used, the links must allow it and the receiver
    /// must be below its load limit.
    pub fn check_delegation(&self, from: &str, to: &str, facts: Option<DelegationFacts>) -> (r: Result<(), DelegationError>)
        ensures
            !self.names().contains(from@) ==> (r matches Err(DelegationError::AgentNotFound(n)) && n@ == from@),
            self.names().contains(from@) && !self.names().contains(to@)
                ==> (r matches Err(DelegationError::AgentNotFound(n)) && n@ == to@),
            self.names().contains(from@) && self.names().contains(to@) ==> match facts {
                None => r is Ok,
                Some(f) => if f.has_links && !f.permitted {
                    r matches Err(DelegationError::NoPermission { from: a, to: b }) && a@ == from@ && b@ == to@
                } else if f.active_count >= self.entries()[position_of(self.names(), to@)->Some_0].max_delegation_load {
                    r matches Err(DelegationError::AtMaxLoad { agent, active, max })
                        && agent@ == to@ && active == f.active_count
                        && max == self.entries()[position_of(self.names(), to@)->Some_0].max_delegation_load
                } else {
                    r is Ok
                },
            },
    {
        proof {
            self.lemma_views();
        }
        if !self.has_agent(from) {
            return Err(DelegationError::AgentNotFound(from.to_owned()));
        }
        let ti = match self.find(to) {
            Some(i) => i,
            None => {
                proof {
                    self.lemma_absent(to@);
                }
                return Err(DelegationError::AgentNotFound(to.to_owned()));
            },
        };
        proof {
            self.lemma_position(to@, ti as int);
            assert(self.names()[ti as int] == to@);
        }
        match facts {
            None => Ok(()),
            Some(f) => {
                if f.has_links && !f.permitted {
                    return Err(DelegationError::NoPermission { from: from.to_owned(), to: to.to_owned() });
                }
                let max = self.agents[ti].max_delegation_load;
                if f.active_count >= max {
                    return Err(DelegationError::AtMaxLoad { agent: to.to_owned(), active: f.active_count, max });
                }
                Ok(())
            },
        }
    }
}



/// Longest delegation result that the store keeps, in bytes.
pub const DELEGATION_RESULT_BYTES: usize = 10000;

/// How a delegation ended, as the store records it.
#[derive(Debug, Clone)]
pub enum DelegationRecord {
    /// Completed, with the reply cut to `DELEGATION_RESULT_BYTES` bytes on a
    /// character boundary.
    Completed(String),
    /// Failed, with the error.
    Failed(String),
}

impl<A> Orchestrator<A> {
    /// The receiving agent of a delegation answered with `outcome`: what the
    /// store records of it and, where it succeeded, the log entry from `from`
    /// to `to` with the task and the reply.  The outcome is handed back.
    pub fn finish_delegation(&mut self, from: &str, to: &str, task: &str, outcome: Result<String, String>, timestamp: String)
        -> (r: (DelegationRecord, Result<String, String>))
        requires
            old(self).wf(),
        ensures
            final(self).wf(),
            final(self).entries() == old(self).entries(),
            final(self).agent_values() == old(self).agent_values(),
            final(self).default_name() == old(self).default_name(),
            r.1 == outcome,
            match outcome {
                Ok(resp) => {
                    &&& r.0 matches DelegationRecord::Completed(t)
                    &&& exists|e: int| truncation_point(encode_utf8(resp@), DELEGATION_RESULT_BYTES as int, e)
                        && encode_utf8(r.0->Completed_0@) == encode_utf8(resp@).subrange(0, e)
                    &&& final(self).log().len() == old(self).log().len() + 1
                    &&& final(self).log().drop_last() == old(self).log()
                    &&& final(self).log().last().from@ == from@
                    &&& final(self).log().last().to@ == to@
                    &&& final(self).log().last().content@ == task@
                    &&& (final(self).log().last().response matches Some(x) && x@ == resp@)
                    &&& final(self).log().last().timestamp@ == timestamp@
                },
                Err(e) => {
                    &&& r.0 matches DelegationRecord::Failed(x)
                    &&& r.0->Failed_0@ == e@
                    &&& final(self).log() == old(self).log()
                },
            },
    {
        match outcome {
            Ok(resp) => {
                let cut = safe_truncate(resp.as_str(), DELEGATION_RESULT_BYTES);
                let record = DelegationRecord::Completed(String::from_str(cut));
                let m = AgentMessage {
                    from: String::from_str(from),
                    to: String::from_str(to),
                    content: String::from_str(task),
                    response: Some(String::from_str(resp.as_str())),
                    timestamp,
                };
                self.log_message(m);
                (record, Ok(resp))
            },
            Err(e) => {
                let record = DelegationRecord::Failed(String::from_str(e.as_str()));
                (record, Err(e))
            },
        }
    }
}

/// A registered agent's metadata, as listed for display.
#[derive(Debug, Clone)]
pub struct AgentSummary {
    pub name: String,
    pub role: String,
    pub description: String,
    pub active: bool,
    pub message_count: u64,
    pub quality_gates: usize,
    pub max_delegation_load: u32,
    pub is_default: bool,
}

/// A logged message for display, with content and response cut to 200
/// bytes.
#[derive(Debug, Clone)]
pub struct MessageSummary {
    pub from: String,
    pub to: String,
    pub content: String,
    pub response: Option<String>,
    pub timestamp: String,
}

/// `short` is `long` cut to at most `max` bytes at a character boundary.
pub open spec fn truncated(long: Seq<u8>, short: Seq<u8>, max: int) -> bool {
    exists|e: int| truncation_point(long, max, e) && short == long.subrange(0, e)
}

/// The discovery section of one agent, with its provider and model.
pub open spec fn discovery_section(e: AgentEntryV, provider: Seq<char>, model: Seq<char>) -> Seq<char> {
    "## "@ + e.name + "\n- **Role**: "@ + e.role + "\n- **Description**: "@ + e.description
        + "\n- **Provider**: "@ + provider + "/"@ + model + "\n\n"@
}

/// The discovery sections of the agents, in order.
pub open spec fn discovery_sections(es: Seq<AgentEntryV>, pm: Seq<(Seq<char>, Seq<char>)>) -> Seq<char>
    decreases es.len(),
{
    if es.len() == 0 || pm.len() < es.len() {
        Seq::empty()
    } else {
        discovery_sections(es.drop_last(), pm) + discovery_section(es.last(), pm[es.len() - 1].0, pm[es.len() - 1].1)
    }
}

impl<A> Default for Orchestrator<A> {
    fn default() -> (r: Self)
        ensures
            r.wf(),
            r.entries() == Seq::<AgentEntryV>::empty(),
            r.default_name() is None,
            r.log() == Seq::<AgentMessage>::empty(),
    {
        Orchestrator::new()
    }
}

impl<A> Orchestrator<A> {
    /// The AGENTS.md text describing the registered agents; `models` gives
    /// each agent's provider and model name, in registration order.
    pub fn agents_discovery_md(&self, models: &[(String, String)]) -> (r: String)
        requires
            models@.len() == self.entries().len(),
        ensures
            r@ == "# Available Agents\n\n"@ + discovery_sections(self.entries(),
                models@.map_values(|p: (String, String)| (p.0@, p.1@))),
    {
        proof {
            self.lemma_views();
        }
        let ghost pm = models@.map_values(|p: (String, String)| (p.0@, p.1@));
        let ghost es = self.entries();
        let mut md = String::from_str("# Available Agents\n\n");
        let mut i: usize = 0;
        while i < self.agents.len()
            invariant
                i <= self.agents.len(),
                models@.len() == self.agents@.len(),
                es == self.entries(),
                es.len() == self.agents@.len(),
                pm == models@.map_values(|p: (String, String)| (p.0@, p.1@)),
                forall|j: int| 0 <= j < self.agents@.len() ==> #[trigger] es[j] == self.agents@[j].entry(),
                md@ == "# Available Agents\n\n"@ + discovery_sections(es.take(i as int), pm),
            decreases self.agents.len() - i,
        {
            let a = &self.agents[i];
            let (provider, model) = (&models[i].0, &models[i].1);
            md.append("## ");
            md.append(a.name.as_str());
            md.append("\n- **Role**: ");
            md.append(a.role.as_str());
            md.append("\n- **Description**: ");
            md.append(a.description.as_str());
            md.append("\n- **Provider**: ");
            md.append(provider.as_str());
            md.append("/");
            md.append(model.as_str());
            md.append("\n\n");
            proof {
                assert(es.take(i as int + 1).drop_last() =~= es.take(i as int));
                assert(es[i as int] == a.entry());
                assert(pm[i as int] == (provider@, model@));
            }
            i = i + 1;
        }
        assert(es.take(i as int) =~= es);
        md
    }

    /// The registered agents' metadata, in registration order.
    pub fn list_agents(&self) -> (r: Vec<AgentSummary>)
        ensures
            r@.len() == self.entries().len(),
            forall|i: int| 0 <= i < r@.len() ==> {
                let s = #[trigger] r@[i];
                let e = self.entries()[i];
                &&& s.name@ == e.name && s.role@ == e.role && s.description@ == e.description
                &&& s.active == e.active && s.message_count == e.message_count
                &&& s.max_delegation_load == e.max_delegation_load
                &&& s.quality_gates == e.gates.len()
                &&& s.is_default == (self.default_name() == Some(e.name))
            },
    {
        proof {
            self.lemma_views();
        }
        let mut r: Vec<AgentSummary> = Vec::new();
        let mut i: usize = 0;
        while i < self.agents.len()
            invariant
                i <= self.agents.len(),
                r@.len() == i,
                forall|k: int| 0 <= k < i ==> {
                    let s = #[trigger] r@[k];
                    let e = self.entries()[k];
                    &&& s.name@ == e.name && s.role@ == e.role && s.description@ == e.description
                    &&& s.active == e.active && s.message_count == e.message_count
                    &&& s.max_delegation_load == e.max_delegation_load
                    &&& s.quality_gates == e.gates.len()
                    &&& s.is_default == (self.default_name() == Some(e.name))
                },
            decreases self.agents.len() - i,
        {
            let a = &self.agents[i];
            let is_default = match &self.default_agent {
                Some(d) => str_eq(d.as_str(), a.name.as_str()),
                None => false,
            };
            r.push(AgentSummary {
                name: a.name.clone(),
                role: a.role.clone(),
                description: a.description.clone(),
                active: a.active,
                message_count: a.message_count,
                quality_gates: a.quality_gates.len(),
                max_delegation_load: a.max_delegation_load,
                is_default,
            });
            i = i + 1;
        }
        r
    }

    /// The message log, oldest first.
    pub fn message_log(&self) -> (r: &Vec<AgentMessage>)
        ensures
            r@ == self.log(),
    {
        &self.message_log
    }

    /// Appends a message to the log.
    pub fn log_message(&mut self, m: AgentMessage)
        requires
            old(self).wf(),
        ensures
            final(self).wf(),
            final(self).log() == old(self).log().push(m),
            final(self).entries() == old(self).entries(),
            final(self).agent_values() == old(self).agent_values(),
            final(self).default_name() == old(self).default_name(),
    {
        self.message_log.push(m);
    }

    /// Counts one more message handled by the named agent; reports whether
    /// it is registered.
    pub fn note_message(&mut self, name: &str) -> (r: bool)
        requires
            old(self).wf(),
            forall|i: int| 0 <= i < old(self).entries().len()
                ==> #[trigger] old(self).entries()[i].message_count < u64::MAX,
        ensures
            final(self).wf(),
            r == old(self).names().contains(name@),
            final(self).agent_values() == old(self).agent_values(),
            final(self).default_name() == old(self).default_name(),
            final(self).log() == old(self).log(),
            match position_of(old(self).names(), name@) {
                Some(i) => final(self).entries() == old(self).entries().update(i, AgentEntryV {
                    message_count: (old(self).entries()[i].message_count + 1) as u64,
                    ..old(self).entries()[i]
                }),
                None => final(self).entries() == old(self).entries(),
            },
    {
        proof {
            old(self).lemma_views();
        }
        match self.find(name) {
            Some(i) => {
                proof {
                    old(self).lemma_position(name@, i as int);
                    assert(old(self).entries()[i as int].message_count < u64::MAX);
                    assert(old(self).names()[i as int] == name@);
                }
                let mut named = self.agents.remove(i);
                named.message_count = named.message_count + 1;
                self.agents.insert(i, named);
                proof {
                    self.lemma_views();
                    assert(self.agents@ =~= old(self).agents@.update(i as int, named));
                    assert(self.entries() =~= old(self).entries().update(i as int, named.entry()));
                    assert(self.agent_values() =~= old(self).agent_values());
                    assert(self.names() =~= old(self).names());
                }
                true
            },
            None => {
                proof {
                    old(self).lemma_absent(name@);
                }
                false
            },
        }
    }

    /// The newest `limit` log entries, newest first, with content and
    /// response cut to 200 bytes.
    pub fn recent_messages(&self, limit: usize) -> (r: Vec<MessageSummary>)
        ensures
            r@.len() == if limit < self.log().len() { limit as int } else { self.log().len() as int },
            forall|k: int| 0 <= k < r@.len() ==> {
                let m = self.log()[self.log().len() - 1 - k];
                let s = #[trigger] r@[k];
                &&& s.from@ == m.from@ && s.to@ == m.to@ && s.timestamp@ == m.timestamp@
                &&& truncated(encode_utf8(m.content@), encode_utf8(s.content@), 200)
                &&& (s.response is Some <==> m.response is Some)
                &&& (m.response matches Some(mr) ==> truncated(encode_utf8(mr@),
                        encode_utf8(s.response->Some_0@), 200))
            },
    {
        let n = self.message_log.len();
        let count = if limit < n { limit } else { n };
        let mut r: Vec<MessageSummary> = Vec::new();
        let mut k: usize = 0;
        while k < count
            invariant
                k <= count,
                n == self.log().len(),
                count <= n,
                r@.len() == k,
                forall|j: int| 0 <= j < k ==> {
                    let m = self.log()[n - 1 - j];
                    let s = #[trigger] r@[j];
                    &&& s.from@ == m.from@ && s.to@ == m.to@ && s.timestamp@ == m.timestamp@
                    &&& truncated(encode_utf8(m.content@), encode_utf8(s.content@), 200)
                    &&& (s.response is Some <==> m.response is Some)
                    &&& (m.response matches Some(mr) ==> truncated(encode_utf8(mr@),
                            encode_utf8(s.response->Some_0@), 200))
                },
            decreases count - k,
        {
            let m = &self.message_log[n - 1 - k];
            let content = safe_truncate(m.content.as_str(), 200).to_owned();
            let response = match &m.response {
                Some(x) => Some(safe_truncate(x.as_str(), 200).to_owned()),
                None => None,
            };
            r.push(MessageSummary {
                from: m.from.clone(),
                to: m.to.clone(),
                content,
                response,
                timestamp: m.timestamp.clone(),
            });
            k = k + 1;
        }
        r
    }

    /// Sets the quality gates of the named agent, if it is registered.
    pub fn set_quality_gates(&mut self, name: &str, gates: Vec<QualityGate>)
        requires
            old(self).wf(),
        ensures
            final(self).wf(),
            final(self).agent_values() == old(self).agent_values(),
            final(self).default_name() == old(self).default_name(),
            final(self).log() == old(self).log(),
            match position_of(old(self).names(), name@) {
                Some(i) => final(self).entries() == old(self).entries().update(i, AgentEntryV {
                    gates: gates@,
                    ..old(self).entries()[i]
                }),
                None => final(self).entries() == old(self).entries(),
            },
    {
        proof {
            old(self).lemma_views();
        }
        match self.find(name) {
            Some(i) => {
                proof {
                    old(self).lemma_position(name@, i as int);
                }
                let mut named = self.agents.remove(i);
                named.quality_gates = gates;
                self.agents.insert(i, named);
                proof {
                    self.lemma_views();
                    assert(self.agents@ =~= old(self).agents@.update(i as int, named));
                    assert(self.entries() =~= old(self).entries().update(i as int, named.entry()));
                    assert(self.agent_values() =~= old(self).agent_values());
                    assert(self.names() =~= old(self).names());
                }
            },
            None => {},
        }
    }

}


/// The entries after registering `e`: it replaces the entry of the same
/// name, or joins at the end.
pub open spec fn entries_after_add(es: Seq<AgentEntryV>, e: AgentEntryV) -> Seq<AgentEntryV> {
    match position_of(es.map_values(|x: AgentEntryV| x.name), e.name) {
        Some(i) => es.update(i, e),
        None => es.push(e),
    }
}

proof fn lemma_first_index(names: Seq<Seq<char>>, x: Seq<char>, i: int)
    requires
        0 <= i < names.len(),
        names[i] == x,
    ensures
        exists|k: int| 0 <= k < names.len() && names[k] == x
            && forall|j: int| 0 <= j < k ==> names[j] != x,
    decreases i,
{
    if exists|j: int| 0 <= j < i && names[j] == x {
        let j = choose|j: int| 0 <= j < i && names[j] == x;
        lemma_first_index(names, x, j);
    }
}

/// Where `position_of` finds a name, it is in range and holds the name.
pub proof fn lemma_position_in_range(names: Seq<Seq<char>>, x: Seq<char>)
    ensures
        position_of(names, x) matches Some(i) ==> 0 <= i < names.len() && names[i] == x,
        position_of(names, x) is None <==> !names.contains(x),
{
    if exists|i: int| 0 <= i < names.len() && names[i] == x {
        let i = choose|i: int| 0 <= i < names.len() && names[i] == x;
        lemma_first_index(names, x, i);
    }
}

/// A registered agent can be found under its name afterwards.
pub proof fn lemma_added_is_registered(es: Seq<AgentEntryV>, e: AgentEntryV)
    ensures
        entries_after_add(es, e).map_values(|x: AgentEntryV| x.name).contains(e.name),
{
    let names = es.map_values(|x: AgentEntryV| x.name);
    let n = entries_after_add(es, e);
    match position_of(names, e.name) {
        Some(i) => {
            lemma_position_in_range(names, e.name);
            assert(n.map_values(|x: AgentEntryV| x.name)[i] == e.name);
        },
        None => {
            assert(n.map_values(|x: AgentEntryV| x.name)[es.len() as int] == e.name);
        },
    }
}

/// With names unique, removing the agent at the position of a name leaves
/// no agent of that name.
pub proof fn lemma_removed_is_gone(es: Seq<AgentEntryV>, i: int)
    requires
        0 <= i < es.len(),
        forall|a: int, b: int| 0 <= a < b < es.len() ==> es[a].name != es[b].name,
    ensures
        !es.remove(i).map_values(|x: AgentEntryV| x.name).contains(es[i].name),
{
    let r = es.remove(i);
    let rn = r.map_values(|x: AgentEntryV| x.name);
    if rn.contains(es[i].name) {
        let k = choose|k: int| 0 <= k < rn.len() && rn[k] == es[i].name;
        if k < i {
            assert(r[k] == es[k]);
        } else {
            assert(r[k] == es[k + 1]);
        }
    }
}

} // verus!
