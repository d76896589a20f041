//! Agent discovery: the AGENTS.md document that tells each agent what the
//! others can do, and a keyword search over agent metadata.
//!
//! Up to 15 agents get a full description each; larger teams get a compact
//! table and are expected to use the search.

use vstd::prelude::*;
use crate::text::{
    chars_of, contains, contains_chars, decimal, join, join_strings, lowercase, occurs_at, split_whitespace,
    to_lowercase, u64_to_string, words,
};

verus! {

/// Largest team that gets the full description of every agent.
pub const FULL_LISTING_LIMIT: usize = 15;

/// Agent metadata for the discovery document.
#[derive(Debug, Clone)]
pub struct AgentInfo {
    pub name: String,
    pub role: String,
    pub description: String,
    pub model: String,
    pub tools: Vec<String>,
}

/// Agent metadata as the model sees it.
pub ghost struct AgentInfoV {
    pub name: Seq<char>,
    pub role: Seq<char>,
    pub description: Seq<char>,
    pub model: Seq<char>,
    pub tools: Seq<Seq<char>>,
}

impl View for AgentInfo {
    type V = AgentInfoV;

    open spec fn view(&self) -> AgentInfoV {
        AgentInfoV {
            name: self.name@,
            role: self.role@,
            description: self.description@,
            model: self.model@,
            tools: self.tools@.map_values(|t: String| t@),
        }
    }
}

pub open spec fn agents_view(agents: Seq<AgentInfo>) -> Seq<AgentInfoV> {
    agents.map_values(|a: AgentInfo| a@)
}

/// `s` followed by a newline where `s` is not empty, else nothing.
pub open spec fn line_if(label: Seq<char>, value: Seq<char>, present: bool) -> Seq<char> {
    if present { label + value + "\n"@ } else { Seq::empty() }
}

/// The full description of one agent.
pub open spec fn agent_section(a: AgentInfoV) -> Seq<char> {
    "## "@ + a.name + "\n"@
        + "- **Role**: "@ + a.role + "\n"@
        + line_if("- **Description**: "@, a.description, a.description.len() > 0)
        + line_if("- **Model**: "@, a.model, a.model.len() > 0)
        + line_if("- **Tools**: "@, join(a.tools, ", "@), a.tools.len() > 0)
        + "\n"@
}

/// One table row for an agent; an empty model shows as "default".
pub open spec fn agent_row(a: AgentInfoV) -> Seq<char> {
    "| "@ + a.name + " | "@ + a.role + " | "@
        + (if a.model.len() == 0 { "default"@ } else { a.model }) + " |\n"@
}

pub open spec fn sections(agents: Seq<AgentInfoV>) -> Seq<char>
    decreases agents.len(),
{
    if agents.len() == 0 { Seq::empty() } else { sections(agents.drop_last()) + agent_section(agents.last()) }
}

pub open spec fn rows(agents: Seq<AgentInfoV>) -> Seq<char>
    decreases agents.len(),
{
    if agents.len() == 0 { Seq::empty() } else { rows(agents.drop_last()) + agent_row(agents.last()) }
}

pub open spec fn delegate_help() -> Seq<char> {
    "## How to Delegate\n"@
        + "Use the `delegate` tool: `{\"to\": \"agent-name\", \"task\": \"description\"}`\n\n"@
        + "## How to Handoff\n"@
        + "Use the `handoff` tool: `{\"to\": \"agent-name\", \"reason\": \"why\"}`\n"@
}

/// The AGENTS.md document for a team.
pub open spec fn agents_md(agents: Seq<AgentInfoV>) -> Seq<char> {
    if agents.len() == 0 {
        Seq::empty()
    } else if agents.len() <= FULL_LISTING_LIMIT {
        "# Available Agents\n\n"@ + "You are part of a team of "@ + decimal(agents.len())
            + " agents. You can delegate tasks or handoff conversations.\n\n"@
            + sections(agents) + delegate_help()
    } else {
        "# Available Agents\n\n"@ + "You are part of a team of "@ + decimal(agents.len())
            + " agents. Use `delegate_search` to find the right agent.\n\n"@
            + "| Agent | Role | Model |\n"@ + "|-------|------|-------|\n"@ + rows(agents)
    }
}

fn append_section(md: &mut String, a: &AgentInfo)
    ensures
        final(md)@ == old(md)@ + agent_section(a@),
{
    let ghost start = md@;
    md.append("## ");
    md.append(a.name.as_str());
    md.append("\n");
    md.append("- **Role**: ");
    md.append(a.role.as_str());
    md.append("\n");
    let ghost after_role = md@;
    assert(after_role =~= start + ("## "@ + a.name@ + "\n"@ + "- **Role**: "@ + a.role@ + "\n"@));
    if !a.description.as_str().is_empty() {
        md.append("- **Description**: ");
        md.append(a.description.as_str());
        md.append("\n");
    }
    let ghost after_desc = md@;
    assert(after_desc =~= after_role + line_if("- **Description**: "@, a.description@, a.description@.len() > 0));
    if !a.model.as_str().is_empty() {
        md.append("- **Model**: ");
        md.append(a.model.as_str());
        md.append("\n");
    }
    let ghost after_model = md@;
    assert(after_model =~= after_desc + line_if("- **Model**: "@, a.model@, a.model@.len() > 0));
    if a.tools.len() > 0 {
        let tools_str = join_strings(&a.tools, ", ");
        md.append("- **Tools**: ");
        md.append(tools_str.as_str());
        md.append("\n");
    }
    let ghost after_tools = md@;
    assert(after_tools =~= after_model + line_if("- **Tools**: "@, join(a@.tools, ", "@), a@.tools.len() > 0));
    md.append("\n");
    assert(md@ =~= start + agent_section(a@));
}

fn append_row(md: &mut String, a: &AgentInfo)
    ensures
        final(md)@ == old(md)@ + agent_row(a@),
{
    let ghost start = md@;
    md.append("| ");
    md.append(a.name.as_str());
    md.append(" | ");
    md.append(a.role.as_str());
    md.append(" | ");
    if a.model.as_str().is_empty() {
        md.append("default");
    } else {
        md.append(a.model.as_str());
    }
    md.append(" |\n");
    assert(md@ =~= start + agent_row(a@));
}

/// Generates AGENTS.md content for injection into agent context: empty for
/// no agents, full per-agent sections for at most 15, a compact table for
/// more.
pub fn generate_agents_md(agents: &[AgentInfo]) -> (r: String)
    ensures
        r@ == agents_md(agents_view(agents@)),
{
    let ghost av = agents_view(agents@);
    if agents.len() == 0 {
        return String::new();
    }
    let mut md = String::new();
    md.append("# Available Agents\n\n");
    let count = u64_to_string(agents.len() as u64);
    if agents.len() <= FULL_LISTING_LIMIT {
        md.append("You are part of a team of ");
        md.append(count.as_str());
        md.append(" agents. You can delegate tasks or handoff conversations.\n\n");
        let ghost head = md@;
        let mut i: usize = 0;
        while i < agents.len()
            invariant
                i <= agents.len(),
                av == agents_view(agents@),
                md@ == head + sections(av.take(i as int)),
            decreases agents.len() - i,
        {
            append_section(&mut md, &agents[i]);
            assert(av.take(i as int + 1).drop_last() =~= av.take(i as int));
            assert(md@ =~= head + sections(av.take(i as int + 1)));
            i = i + 1;
        }
        assert(av.take(agents.len() as int) =~= av);
        let ghost body = md@;
        md.append("## How to Delegate\n");
        md.append("Use the `delegate` tool: `{\"to\": \"agent-name\", \"task\": \"description\"}`\n\n");
        md.append("## How to Handoff\n");
        md.append("Use the `handoff` tool: `{\"to\": \"agent-name\", \"reason\": \"why\"}`\n");
        assert(md@ =~= body + delegate_help());
    } else {
        md.append("You are part of a team of ");
        md.append(count.as_str());
        md.append(" agents. Use `delegate_search` to find the right agent.\n\n");
        md.append("| Agent | Role | Model |\n");
        md.append("|-------|------|-------|\n");
        let ghost head = md@;
        let mut i: usize = 0;
        while i < agents.len()
            invariant
                i <= agents.len(),
                av == agents_view(agents@),
                md@ == head + rows(av.take(i as int)),
            decreases agents.len() - i,
        {
            append_row(&mut md, &agents[i]);
            assert(av.take(i as int + 1).drop_last() =~= av.take(i as int));
            assert(md@ =~= head + rows(av.take(i as int + 1)));
            i = i + 1;
        }
        assert(av.take(agents.len() as int) =~= av);
    }
    assert(md@ =~= agents_md(av));
    md
}


/// The lowercase forms of strings, one by one.
pub open spec fn lowercase_each(parts: Seq<Seq<char>>) -> Seq<Seq<char>> {
    parts.map_values(|t: Seq<char>| lowercase(t))
}

/// The text an agent is searched by: name, role, description and tools,
/// separated by spaces, in lowercase.  Each part is lowercased on its own:
/// as the parts are separated by spaces, across which no case mapping
/// looks (the final-sigma rule stops at a space), this is the lowercase
/// form of the whole text.
pub open spec fn searchable(a: AgentInfoV) -> Seq<char> {
    lowercase(a.name) + " "@ + lowercase(a.role) + " "@ + lowercase(a.description) + " "@
        + join(lowercase_each(a.tools), " "@)
}

/// How many of the keywords occur in `text` (a keyword given twice counts
/// twice).
pub open spec fn hits(kws: Seq<Seq<char>>, text: Seq<char>) -> nat
    decreases kws.len(),
{
    if kws.len() == 0 {
        0
    } else {
        hits(kws.drop_last(), text) + if contains(text, kws.last()) { 1nat } else { 0nat }
    }
}

/// The search keywords of a query: its lowercase words.
pub open spec fn keywords(query: Seq<char>) -> Seq<Seq<char>> {
    words(lowercase(query))
}

/// An agent's score for a query.
pub open spec fn score(a: AgentInfoV, query: Seq<char>) -> u32 {
    hits(keywords(query), searchable(a)) as u32
}

pub open spec fn scores(agents: Seq<AgentInfoV>, query: Seq<char>) -> Seq<u32> {
    agents.map_values(|a: AgentInfoV| score(a, query))
}

/// `idx` lists exactly the positions with a positive score, by descending
/// score and, among equal scores, in the order given.
pub open spec fn ranked(sc: Seq<u32>, idx: Seq<int>) -> bool {
    &&& forall|k: int| 0 <= k < idx.len() ==> 0 <= #[trigger] idx[k] < sc.len() && sc[idx[k]] > 0
    &&& forall|i: int| 0 <= i < sc.len() && sc[i] > 0 ==> #[trigger] idx.contains(i)
    &&& forall|k: int, l: int| 0 <= k < l < idx.len() ==>
            sc[#[trigger] idx[k]] > sc[#[trigger] idx[l]]
            || (sc[idx[k]] == sc[idx[l]] && idx[k] < idx[l])
}

pub open spec fn usize_seq_to_int(s: Seq<usize>) -> Seq<int> {
    s.map_values(|x: usize| x as int)
}

proof fn lemma_insert_ranked(sc: Seq<u32>, i: int, old: Seq<int>, pos: int)
    requires
        0 <= i < sc.len(),
        sc[i] > 0,
        0 <= pos <= old.len(),
        ranked(sc.take(i), old),
        forall|k: int| 0 <= k < pos ==> sc[#[trigger] old[k]] >= sc[i],
        pos < old.len() ==> sc[old[pos]] < sc[i],
    ensures
        ranked(sc.take(i + 1), old.insert(pos, i)),
{
    let ni = old.insert(pos, i);
    let t = sc.take(i + 1);
    let t0 = sc.take(i);
    old.insert_ensures(pos, i);
    assert forall|k: int| 0 <= k < ni.len() implies 0 <= #[trigger] ni[k] < t.len() && t[ni[k]] > 0 by {
        if k < pos {
            assert(ni[k] == old[k]);
        } else if k > pos {
            assert(ni[k] == old[k - 1]);
        }
    }
    assert forall|j: int| 0 <= j < t.len() && t[j] > 0 implies #[trigger] ni.contains(j) by {
        if j < i {
            assert(t0[j] == t[j]);
            assert(old.contains(j));
            let k = choose|k: int| 0 <= k < old.len() && old[k] == j;
            if k < pos {
                assert(ni[k] == j);
            } else {
                assert(ni[k + 1] == j);
            }
        } else {
            assert(ni[pos] == j);
        }
    }
    assert forall|k: int, l: int| 0 <= k < l < ni.len() implies
        t[#[trigger] ni[k]] > t[#[trigger] ni[l]]
        || (t[ni[k]] == t[ni[l]] && ni[k] < ni[l]) by {
        if k < pos && l < pos {
            assert(ni[k] == old[k] && ni[l] == old[l]);
            assert(t0[old[k]] == t[old[k]] && t0[old[l]] == t[old[l]]);
        } else if k < pos && l == pos {
            assert(ni[k] == old[k]);
            assert(old[k] < t0.len());
        } else if k < pos && l > pos {
            assert(ni[k] == old[k] && ni[l] == old[l - 1]);
            assert(t0[old[k]] == t[old[k]] && t0[old[l - 1]] == t[old[l - 1]]);
            if k < l - 1 {
                assert(t0[old[k]] > t0[old[l - 1]] || (t0[old[k]] == t0[old[l - 1]] && old[k] < old[l - 1]));
            }
        } else if k == pos {
            assert(ni[l] == old[l - 1]);
            assert(t0[old[l - 1]] == t[old[l - 1]]);
            if l - 1 > pos {
                assert(t0[old[pos]] > t0[old[l - 1]] || t0[old[pos]] == t0[old[l - 1]]);
                assert(t0[old[pos]] == sc[old[pos]]);
            }
        } else {
            assert(ni[k] == old[k - 1] && ni[l] == old[l - 1]);
            assert(t0[old[k - 1]] == t[old[k - 1]] && t0[old[l - 1]] == t[old[l - 1]]);
        }
    }
}

proof fn lemma_skip_ranked(sc: Seq<u32>, i: int, old: Seq<int>)
    requires
        0 <= i < sc.len(),
        sc[i] == 0,
        ranked(sc.take(i), old),
    ensures
        ranked(sc.take(i + 1), old),
{
    let t = sc.take(i + 1);
    let t0 = sc.take(i);
    assert forall|k: int| 0 <= k < old.len() implies 0 <= #[trigger] old[k] < t.len() && t[old[k]] > 0 by {
        assert(t0[old[k]] == t[old[k]]);
    }
    assert forall|j: int| 0 <= j < t.len() && t[j] > 0 implies #[trigger] old.contains(j) by {
        assert(j != i);
        assert(t0[j] == t[j]);
    }
    assert forall|k: int, l: int| 0 <= k < l < old.len() implies
        t[#[trigger] old[k]] > t[#[trigger] old[l]]
        || (t[old[k]] == t[old[l]] && old[k] < old[l]) by {
        assert(t0[old[k]] == t[old[k]]);
        assert(t0[old[l]] == t[old[l]]);
    }
}

/// Scores one agent against the keywords.
fn agent_score(a: &AgentInfo, kws: &Vec<Vec<char>>) -> (r: u32)
    ensures
        r == hits(kws@.map_values(|w: Vec<char>| w@), searchable(a@)) as u32,
{
    let mut lowered: Vec<String> = Vec::new();
    let mut t: usize = 0;
    while t < a.tools.len()
        invariant
            t <= a.tools.len(),
            lowered@.map_values(|x: String| x@) == lowercase_each(a@.tools.take(t as int)),
        decreases a.tools.len() - t,
    {
        let ghost before = lowered@.map_values(|x: String| x@);
        let low = to_lowercase(a.tools[t].as_str());
        assert(a@.tools[t as int] == a.tools@[t as int]@);
        lowered.push(low);
        assert(lowered@.map_values(|x: String| x@) =~= before.push(lowercase(a@.tools[t as int])));
        assert(lowercase_each(a@.tools.take(t as int + 1)) =~= lowercase_each(a@.tools.take(t as int)).push(lowercase(a@.tools[t as int])));
        t = t + 1;
    }
    assert(a@.tools.take(a.tools.len() as int) =~= a@.tools);
    let mut lower = to_lowercase(a.name.as_str());
    lower.append(" ");
    let role = to_lowercase(a.role.as_str());
    lower.append(role.as_str());
    lower.append(" ");
    let desc = to_lowercase(a.description.as_str());
    lower.append(desc.as_str());
    lower.append(" ");
    let tools = join_strings(&lowered, " ");
    lower.append(tools.as_str());
    assert(lower@ =~= searchable(a@));
    let hay = chars_of(lower.as_str());
    let ghost kv = kws@.map_values(|w: Vec<char>| w@);
    let mut n: usize = 0;
    let mut i: usize = 0;
    while i < kws.len()
        invariant
            i <= kws.len(),
            kv == kws@.map_values(|w: Vec<char>| w@),
            hay@ == searchable(a@),
            n == hits(kv.take(i as int), hay@),
            n <= i,
        decreases kws.len() - i,
    {
        assert(kv.take(i as int + 1).drop_last() =~= kv.take(i as int));
        if contains_chars(hay.as_slice(), kws[i].as_slice()) {
            n = n + 1;
        }
        i = i + 1;
    }
    assert(kv.take(kws.len() as int) =~= kv);
    n as u32
}

/// Positions of the agents matching `query`, best match first.
pub fn rank_agents(agents: &[AgentInfo], query: &str) -> (r: Vec<usize>)
    ensures
        ranked(scores(agents_view(agents@), query@), usize_seq_to_int(r@)),
{
    let ghost sc = scores(agents_view(agents@), query@);
    let lower = to_lowercase(query);
    let qc = chars_of(lower.as_str());
    let kws = split_whitespace(qc.as_slice());
    let mut sv: Vec<u32> = Vec::new();
    let mut i: usize = 0;
    while i < agents.len()
        invariant
            i <= agents.len(),
            sc == scores(agents_view(agents@), query@),
            kws@.map_values(|w: Vec<char>| w@) == keywords(query@),
            sv@.len() == i,
            forall|k: int| 0 <= k < i ==> #[trigger] sv@[k] == sc[k],
        decreases agents.len() - i,
    {
        let s = agent_score(&agents[i], &kws);
        sv.push(s);
        i = i + 1;
    }
    assert(sv@ =~= sc);
    let mut idx: Vec<usize> = Vec::new();
    let mut i: usize = 0;
    while i < agents.len()
        invariant
            i <= agents.len(),
            sv@ == sc,
            sc.len() == agents.len(),
            ranked(sc.take(i as int), usize_seq_to_int(idx@)),
        decreases agents.len() - i,
    {
        let si = sv[i];
        let ghost old_idx = usize_seq_to_int(idx@);
        if si > 0 {
            // first position whose score is below si
            let mut pos: usize = 0;
            assert forall|k: int| 0 <= k < idx.len() implies (#[trigger] idx@[k] as int) < i by {
                assert(old_idx[k] == idx@[k] as int);
                assert(old_idx[k] < sc.take(i as int).len());
            }
            while pos < idx.len() && sv[idx[pos]] >= si
                invariant
                    pos <= idx.len(),
                    sv@ == sc,
                    old_idx == usize_seq_to_int(idx@),
                    ranked(sc.take(i as int), old_idx),
                    i < sc.len(),
                    sv@.len() == sc.len(),
                    si == sc[i as int],
                    forall|k: int| 0 <= k < idx.len() ==> (#[trigger] idx@[k] as int) < i,
                    forall|k: int| 0 <= k < pos ==> sc[#[trigger] old_idx[k]] >= sc[i as int],
                decreases idx.len() - pos,
            {
                assert(old_idx[pos as int] == idx@[pos as int] as int);
                assert(sv@[idx@[pos as int] as int] == sc[old_idx[pos as int]]);
                pos = pos + 1;
            }
            idx.insert(pos, i);
            proof {
                assert(usize_seq_to_int(idx@) =~= old_idx.insert(pos as int, i as int));
                lemma_insert_ranked(sc, i as int, old_idx, pos as int);
            }
        } else {
            proof {
                lemma_skip_ranked(sc, i as int, old_idx);
            }
        }
        i = i + 1;
    }
    assert(sc.take(agents.len() as int) =~= sc);
    idx
}

/// Simple keyword search over agent metadata (for large teams): the agents
/// in which at least one query word occurs, best match first (more matching
/// words first, ties in the order given).
pub fn search_agents<'a>(agents: &'a [AgentInfo], query: &str) -> (r: Vec<&'a AgentInfo>)
    ensures
        exists|idx: Seq<int>|
            ranked(scores(agents_view(agents@), query@), idx)
            && r@.len() == idx.len()
            && forall|k: int| 0 <= k < idx.len() ==> *(#[trigger] r@[k]) == agents@[idx[k]],
{
    let idx = rank_agents(agents, query);
    let ghost iv = usize_seq_to_int(idx@);
    let mut r: Vec<&'a AgentInfo> = Vec::new();
    let mut k: usize = 0;
    while k < idx.len()
        invariant
            k <= idx.len(),
            iv == usize_seq_to_int(idx@),
            ranked(scores(agents_view(agents@), query@), iv),
            r@.len() == k,
            forall|j: int| 0 <= j < k ==> *(#[trigger] r@[j]) == agents@[iv[j]],
        decreases idx.len() - k,
    {
        assert(iv[k as int] < agents.len()) by {
            assert(scores(agents_view(agents@), query@).len() == agents.len());
        }
        r.push(&agents[idx[k]]);
        k = k + 1;
    }
    r
}

proof fn lemma_ranked_position(sc: Seq<u32>, a: Seq<int>, b: Seq<int>, k: int)
    requires
        ranked(sc, a),
        ranked(sc, b),
        0 <= k < a.len(),
        k < b.len(),
        forall|j: int| 0 <= j < k ==> a[j] == b[j],
    ensures
        a[k] == b[k],
{
    assert(b.contains(a[k]));
    let m = choose|m: int| 0 <= m < b.len() && b[m] == a[k];
    assert(a.contains(b[k]));
    let p = choose|p: int| 0 <= p < a.len() && a[p] == b[k];
    if m < k {
        assert(a[m] == b[m]);
        assert(sc[a[m]] > sc[a[k]] || (sc[a[m]] == sc[a[k]] && a[m] < a[k]));
    } else if m > k {
        if p < k {
            assert(b[p] == a[p]);
            assert(sc[b[p]] > sc[b[k]] || (sc[b[p]] == sc[b[k]] && b[p] < b[k]));
        } else if p == k {
            assert(sc[b[k]] > sc[b[m]] || (sc[b[k]] == sc[b[m]] && b[k] < b[m]));
        } else {
            assert(sc[a[k]] > sc[a[p]] || (sc[a[k]] == sc[a[p]] && a[k] < a[p]));
            assert(sc[b[k]] > sc[b[m]] || (sc[b[k]] == sc[b[m]] && b[k] < b[m]));
        }
    }
}

proof fn lemma_ranked_prefix(sc: Seq<u32>, a: Seq<int>, b: Seq<int>, n: int)
    requires
        ranked(sc, a),
        ranked(sc, b),
        0 <= n <= a.len(),
        n <= b.len(),
    ensures
        forall|j: int| 0 <= j < n ==> a[j] == b[j],
    decreases n,
{
    if n > 0 {
        lemma_ranked_prefix(sc, a, b, n - 1);
        lemma_ranked_position(sc, a, b, n - 1);
    }
}

proof fn lemma_ranked_not_longer(sc: Seq<u32>, a: Seq<int>, b: Seq<int>)
    requires
        ranked(sc, a),
        ranked(sc, b),
    ensures
        a.len() <= b.len(),
{
    if a.len() > b.len() {
        lemma_ranked_prefix(sc, a, b, b.len() as int);
        let x = a[b.len() as int];
        assert(b.contains(x));
        let m = choose|m: int| 0 <= m < b.len() && b[m] == x;
        assert(a[m] == b[m]);
        assert(sc[a[m]] > sc[x] || (sc[a[m]] == sc[x] && a[m] < x));
    }
}

/// A search ranking is determined: two rankings of the same scores are the
/// same list, so the agents that a search returns, and their order, are
/// fixed by the agents and the query.
pub proof fn lemma_ranking_unique(sc: Seq<u32>, a: Seq<int>, b: Seq<int>)
    requires
        ranked(sc, a),
        ranked(sc, b),
    ensures
        a == b,
{
    lemma_ranked_not_longer(sc, a, b);
    lemma_ranked_not_longer(sc, b, a);
    lemma_ranked_prefix(sc, a, b, a.len() as int);
    assert(a =~= b);
}


proof fn lemma_contains_extend(pre: Seq<char>, x: Seq<char>, post: Seq<char>, needle: Seq<char>)
    requires
        contains(x, needle),
    ensures
        contains(pre + x + post, needle),
{
    let i = choose|i: int| occurs_at(x, needle, i);
    let whole = pre + x + post;
    assert(whole.subrange(pre.len() + i, pre.len() + i + needle.len()) =~= x.subrange(i, i + needle.len()));
    assert(occurs_at(whole, needle, pre.len() + i));
}

proof fn lemma_join_contains_part(parts: Seq<Seq<char>>, sep: Seq<char>, t: int, needle: Seq<char>)
    requires
        0 <= t < parts.len(),
        contains(parts[t], needle),
    ensures
        contains(join(parts, sep), needle),
    decreases parts.len(),
{
    if parts.len() == 1 {
        assert(join(parts, sep) == parts[0]);
    } else if t == parts.len() - 1 {
        lemma_contains_extend(join(parts.drop_last(), sep) + sep, parts.last(), Seq::empty(), needle);
        assert(join(parts.drop_last(), sep) + sep + parts.last() + Seq::<char>::empty()
            =~= join(parts, sep));
    } else {
        assert(parts.drop_last()[t] == parts[t]);
        lemma_join_contains_part(parts.drop_last(), sep, t, needle);
        lemma_contains_extend(Seq::empty(), join(parts.drop_last(), sep), sep + parts.last(), needle);
        assert(Seq::<char>::empty() + join(parts.drop_last(), sep) + (sep + parts.last()) =~= join(parts, sep));
    }
}

proof fn lemma_hits_bounds(kws: Seq<Seq<char>>, text: Seq<char>, k: int)
    requires
        0 <= k < kws.len(),
        contains(text, kws[k]),
    ensures
        1 <= hits(kws, text) <= kws.len(),
    decreases kws.len(),
{
    lemma_hits_le(kws.drop_last(), text);
    if k < kws.len() - 1 {
        assert(kws.drop_last()[k] == kws[k]);
        lemma_hits_bounds(kws.drop_last(), text, k);
    }
}

proof fn lemma_hits_le(kws: Seq<Seq<char>>, text: Seq<char>)
    ensures
        hits(kws, text) <= kws.len(),
    decreases kws.len(),
{
    if kws.len() > 0 {
        lemma_hits_le(kws.drop_last(), text);
    }
}

/// An agent whose name, role, description or one of whose tools holds,
/// once lowercased, a word of the lowercased query has a positive score and
/// is among the agents a search finds (`search_agents` returns the agents
/// of a ranking `idx` of the scores).
pub proof fn lemma_matching_agent_found(agents: Seq<AgentInfoV>, query: Seq<char>, i: int, kw: Seq<char>, idx: Seq<int>)
    requires
        0 <= i < agents.len(),
        keywords(query).contains(kw),
        keywords(query).len() <= u32::MAX,
        contains(lowercase(agents[i].name), kw) || contains(lowercase(agents[i].role), kw)
            || contains(lowercase(agents[i].description), kw)
            || exists|t: int| 0 <= t < agents[i].tools.len() && contains(#[trigger] lowercase(agents[i].tools[t]), kw),
        ranked(scores(agents, query), idx),
    ensures
        scores(agents, query)[i] > 0,
        idx.contains(i),
{
    let a = agents[i];
    let sp = " "@;
    let n = lowercase(a.name);
    let r = lowercase(a.role);
    let d = lowercase(a.description);
    let tj = join(lowercase_each(a.tools), sp);
    assert(searchable(a) == n + sp + r + sp + d + sp + tj);
    if contains(n, kw) {
        lemma_contains_extend(Seq::empty(), n, sp + r + sp + d + sp + tj, kw);
        assert(Seq::<char>::empty() + n + (sp + r + sp + d + sp + tj) =~= searchable(a));
    } else if contains(r, kw) {
        lemma_contains_extend(n + sp, r, sp + d + sp + tj, kw);
        assert(n + sp + r + (sp + d + sp + tj) =~= searchable(a));
    } else if contains(d, kw) {
        lemma_contains_extend(n + sp + r + sp, d, sp + tj, kw);
        assert(n + sp + r + sp + d + (sp + tj) =~= searchable(a));
    } else {
        let t = choose|t: int| 0 <= t < a.tools.len() && contains(#[trigger] lowercase(a.tools[t]), kw);
        assert(lowercase_each(a.tools)[t] == lowercase(a.tools[t]));
        lemma_join_contains_part(lowercase_each(a.tools), sp, t, kw);
        lemma_contains_extend(n + sp + r + sp + d + sp, tj, Seq::empty(), kw);
        assert(n + sp + r + sp + d + sp + tj + Seq::<char>::empty() =~= searchable(a));
    }
    assert(contains(searchable(a), kw));
    let k = choose|k: int| 0 <= k < keywords(query).len() && keywords(query)[k] == kw;
    lemma_hits_bounds(keywords(query), searchable(a), k);
    assert(scores(agents, query)[i] == score(a, query));
    assert(scores(agents, query)[i] > 0);
}


proof fn lemma_sections_contain(agents: Seq<AgentInfoV>, i: int, needle: Seq<char>)
    requires
        0 <= i < agents.len(),
        contains(agent_section(agents[i]), needle),
    ensures
        contains(sections(agents), needle),
    decreases agents.len(),
{
    let p = agents.drop_last();
    if i == agents.len() - 1 {
        lemma_contains_extend(sections(p), agent_section(agents.last()), Seq::empty(), needle);
        assert(sections(p) + agent_section(agents.last()) + Seq::<char>::empty() =~= sections(agents));
    } else {
        assert(p[i] == agents[i]);
        lemma_sections_contain(p, i, needle);
        lemma_contains_extend(Seq::empty(), sections(p), agent_section(agents.last()), needle);
        assert(Seq::<char>::empty() + sections(p) + agent_section(agents.last()) =~= sections(agents));
    }
}

proof fn lemma_rows_contain(agents: Seq<AgentInfoV>, i: int)
    requires
        0 <= i < agents.len(),
    ensures
        contains(rows(agents), agent_row(agents[i])),
    decreases agents.len(),
{
    let p = agents.drop_last();
    let row = agent_row(agents[i]);
    if i == agents.len() - 1 {
        assert(occurs_at(row, row, 0)) by {
            assert(row.subrange(0, row.len() as int) =~= row);
        }
        lemma_contains_extend(rows(p), row, Seq::empty(), row);
        assert(rows(p) + row + Seq::<char>::empty() =~= rows(agents));
    } else {
        assert(p[i] == agents[i]);
        lemma_rows_contain(p, i);
        lemma_contains_extend(Seq::empty(), rows(p), agent_row(agents.last()), row);
        assert(Seq::<char>::empty() + rows(p) + agent_row(agents.last()) =~= rows(agents));
    }
}

proof fn lemma_contains_self(s: Seq<char>)
    ensures
        contains(s, s),
{
    assert(s.subrange(0, s.len() as int) =~= s);
    assert(occurs_at(s, s, 0));
}

/// For a team of 1 to 15 agents the document describes every agent: it
/// holds the agent's heading and role line, its description line where it
/// has a description, its model line where it has a model, and its tools
/// line (the tools joined by ", ") where it has tools.
pub proof fn lemma_agents_md_describes_all(agents: Seq<AgentInfoV>, i: int)
    requires
        1 <= agents.len() <= FULL_LISTING_LIMIT,
        0 <= i < agents.len(),
    ensures
        contains(agents_md(agents), "## "@ + agents[i].name + "\n"@ + "- **Role**: "@ + agents[i].role + "\n"@),
        agents[i].description.len() > 0
            ==> contains(agents_md(agents), "- **Description**: "@ + agents[i].description + "\n"@),
        agents[i].model.len() > 0 ==> contains(agents_md(agents), "- **Model**: "@ + agents[i].model + "\n"@),
        agents[i].tools.len() > 0
            ==> contains(agents_md(agents), "- **Tools**: "@ + join(agents[i].tools, ", "@) + "\n"@),
{
    let a = agents[i];
    let head = "## "@ + a.name + "\n"@ + "- **Role**: "@ + a.role + "\n"@;
    let d = line_if("- **Description**: "@, a.description, a.description.len() > 0);
    let m = line_if("- **Model**: "@, a.model, a.model.len() > 0);
    let t = line_if("- **Tools**: "@, join(a.tools, ", "@), a.tools.len() > 0);
    let nl = "\n"@;
    assert(agent_section(a) =~= head + d + m + t + nl);
    let pre = "# Available Agents\n\n"@ + "You are part of a team of "@ + decimal(agents.len())
        + " agents. You can delegate tasks or handoff conversations.\n\n"@;
    assert(agents_md(agents) == pre + sections(agents) + delegate_help());
    let md = agents_md(agents);
    lemma_contains_self(head);
    lemma_contains_extend(Seq::empty(), head, d + m + t + nl, head);
    assert(Seq::<char>::empty() + head + (d + m + t + nl) =~= agent_section(a));
    lemma_sections_contain(agents, i, head);
    lemma_contains_extend(pre, sections(agents), delegate_help(), head);
    if a.description.len() > 0 {
        lemma_contains_self(d);
        lemma_contains_extend(head, d, m + t + nl, d);
        assert(head + d + (m + t + nl) =~= agent_section(a));
        lemma_sections_contain(agents, i, d);
        lemma_contains_extend(pre, sections(agents), delegate_help(), d);
        assert(d =~= "- **Description**: "@ + a.description + "\n"@);
    }
    if a.model.len() > 0 {
        lemma_contains_self(m);
        lemma_contains_extend(head + d, m, t + nl, m);
        assert(head + d + m + (t + nl) =~= agent_section(a));
        lemma_sections_contain(agents, i, m);
        lemma_contains_extend(pre, sections(agents), delegate_help(), m);
        assert(m =~= "- **Model**: "@ + a.model + "\n"@);
    }
    if a.tools.len() > 0 {
        lemma_contains_self(t);
        lemma_contains_extend(head + d + m, t, nl, t);
        assert(head + d + m + t + nl =~= agent_section(a));
        lemma_sections_contain(agents, i, t);
        lemma_contains_extend(pre, sections(agents), delegate_help(), t);
        assert(t =~= "- **Tools**: "@ + join(a.tools, ", "@) + "\n"@);
    }
}

/// For a team of more than 15 agents the document lists every agent in a
/// table row with its name, its role and its model ("default" where it has
/// none).
pub proof fn lemma_agents_md_lists_all(agents: Seq<AgentInfoV>, i: int)
    requires
        agents.len() > FULL_LISTING_LIMIT,
        0 <= i < agents.len(),
    ensures
        contains(agents_md(agents), "| "@ + agents[i].name + " | "@ + agents[i].role + " | "@
            + (if agents[i].model.len() == 0 { "default"@ } else { agents[i].model }) + " |\n"@),
{
    let pre = "# Available Agents\n\n"@ + "You are part of a team of "@ + decimal(agents.len())
        + " agents. Use `delegate_search` to find the right agent.\n\n"@
        + "| Agent | Role | Model |\n"@ + "|-------|------|-------|\n"@;
    assert(agents_md(agents) == pre + rows(agents));
    lemma_rows_contain(agents, i);
    lemma_contains_extend(pre, rows(agents), Seq::empty(), agent_row(agents[i]));
    assert(pre + rows(agents) + Seq::<char>::empty() =~= agents_md(agents));
}


/// The document is empty for no agents; otherwise it starts with its title
/// and says how many agents the team has.
pub proof fn lemma_agents_md_header(agents: Seq<AgentInfoV>)
    ensures
        agents.len() == 0 ==> agents_md(agents) == Seq::<char>::empty(),
        agents.len() > 0 ==> agents_md(agents).take(20) == "# Available Agents\n\n"@,
        agents.len() > 0 ==> contains(agents_md(agents), "You are part of a team of "@ + decimal(agents.len()) + " agents."@),
{
    if agents.len() > 0 {
        reveal_strlit("# Available Agents\n\n");
        let title = "# Available Agents\n\n"@;
        let count = "You are part of a team of "@ + decimal(agents.len()) + " agents."@;
        lemma_contains_self(count);
        if agents.len() <= FULL_LISTING_LIMIT {
            let rest = " You can delegate tasks or handoff conversations.\n\n"@ + sections(agents) + delegate_help();
            lemma_contains_extend(title, count, rest, count);
            reveal_strlit(" agents. You can delegate tasks or handoff conversations.\n\n");
            reveal_strlit(" agents.");
            reveal_strlit(" You can delegate tasks or handoff conversations.\n\n");
            assert(title + count + rest =~= agents_md(agents));
        } else {
            let rest = " Use `delegate_search` to find the right agent.\n\n"@
                + "| Agent | Role | Model |\n"@ + "|-------|------|-------|\n"@ + rows(agents);
            lemma_contains_extend(title, count, rest, count);
            reveal_strlit(" agents. Use `delegate_search` to find the right agent.\n\n");
            reveal_strlit(" agents.");
            reveal_strlit(" Use `delegate_search` to find the right agent.\n\n");
            assert(title + count + rest =~= agents_md(agents));
        }
        assert(agents_md(agents).take(20) =~= title);
    }
}

} // verus!
