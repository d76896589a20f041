//! Hands: autonomous capabilities that run a multi-phase playbook on a
//! schedule, the registry that holds them, and the guardrails that gate the
//! tools they use.

use vstd::prelude::*;
use vstd::string::*;
use crate::order::{holds_prefix, lemma_holds_insert, lemma_insert_point, lemma_sorted_insert, sorted_names};
use crate::text::{chars_lt, decimal, str_eq, str_lt, u64_to_string};

verus! {

/// When a hand runs.
#[derive(Debug, Clone)]
pub enum HandSchedule {
    /// At the times of a cron expression such as "0 6 * * *".
    Cron(String),
    /// Every so many seconds.
    Interval(u64),
    /// Once, when activated.
    Once,
    /// Only when triggered from the CLI or the API.
    Manual,
}

/// How a schedule reads: intervals in whole hours from an hour up, in whole
/// minutes from a minute up, else in seconds.
pub open spec fn schedule_text(s: HandSchedule) -> Seq<char> {
    match s {
        HandSchedule::Cron(e) => "cron("@ + e@ + ")"@,
        HandSchedule::Interval(n) => if n >= 3600 {
            "every "@ + decimal((n / 3600) as nat) + "h"@
        } else if n >= 60 {
            "every "@ + decimal((n / 60) as nat) + "min"@
        } else {
            "every "@ + decimal(n as nat) + "s"@
        },
        HandSchedule::Once => "once"@,
        HandSchedule::Manual => "manual"@,
    }
}

impl HandSchedule {
    /// The schedule as text ("cron(0 6 * * *)", "every 5min", "manual").
    pub fn to_string(&self) -> (r: String)
        ensures
            r@ == schedule_text(*self),
    {
        match self {
            HandSchedule::Cron(e) => {
                let mut r = String::from_str("cron(");
                r.append(e.as_str());
                r.append(")");
                r
            },
            HandSchedule::Interval(n) => {
                let mut r = String::from_str("every ");
                if *n >= 3600 {
                    let d = u64_to_string(*n / 3600);
                    r.append(d.as_str());
                    r.append("h");
                } else if *n >= 60 {
                    let d = u64_to_string(*n / 60);
                    r.append(d.as_str());
                    r.append("min");
                } else {
                    let d = u64_to_string(*n);
                    r.append(d.as_str());
                    r.append("s");
                }
                r
            },
            HandSchedule::Once => String::from_str("once"),
            HandSchedule::Manual => String::from_str("manual"),
        }
    }
}

/// One phase of a hand's playbook.
#[derive(Debug, Clone)]
pub struct PhaseManifest {
    pub name: String,
    pub description: String,
    /// Tools the phase may use.
    pub allowed_tools: Vec<String>,
    /// Longest the phase may run, in seconds.
    pub timeout_secs: u64,
    /// Whether a person must approve the phase before it runs.
    pub requires_approval: bool,
}

/// A hand's manifest (the content of its HAND.toml).
#[derive(Debug, Clone)]
pub struct HandManifest {
    /// Unique identifier ("research", "monitor").
    pub name: String,
    pub label: String,
    pub icon: String,
    pub description: String,
    pub version: String,
    pub schedule: HandSchedule,
    pub phases: Vec<PhaseManifest>,
    /// LLM provider; empty for the default one.
    pub provider: String,
    /// LLM model; empty for the default one.
    pub model: String,
    /// Longest a whole run may take, in seconds.
    pub max_runtime_secs: u64,
    pub enabled: bool,
    /// Channels that receive the results ("telegram", "email").
    pub notify_channels: Vec<String>,
}

/// Phase timeout when a manifest gives none: five minutes.
pub fn default_phase_timeout() -> (r: u64)
    ensures
        r == 300,
{
    300
}

/// Icon when a manifest gives none.
pub fn default_icon() -> (r: String)
    ensures
        r@ == "🤖"@,
{
    String::from_str("🤖")
}

/// Version when a manifest gives none.
pub fn default_version() -> (r: String)
    ensures
        r@ == "1.0.0"@,
{
    String::from_str("1.0.0")
}

/// Run-time limit when a manifest gives none: thirty minutes.
pub fn default_max_runtime() -> (r: u64)
    ensures
        r == 1800,
{
    1800
}

/// Manifests are enabled unless they say otherwise.
pub fn default_true() -> (r: bool)
    ensures
        r,
{
    true
}

/// Where a hand is in its life cycle.
#[derive(Debug, Clone, Copy, PartialEq, Eq, Structural)]
pub enum HandStatus {
    Idle,
    Running,
    Completed,
    Failed,
    Disabled,
}

/// A registered hand: its manifest and its status.
#[derive(Debug, Clone)]
pub struct Hand {
    pub manifest: HandManifest,
    pub status: HandStatus,
}

/// A freshly registered hand is idle.
pub open spec fn fresh_hand(m: HandManifest) -> Hand {
    Hand { manifest: m, status: HandStatus::Idle }
}

/// The hand with its status and its manifest's enabled flag set.
pub open spec fn with_status(h: Hand, st: HandStatus, enabled: bool) -> Hand {
    Hand { manifest: HandManifest { enabled: enabled, ..h.manifest }, status: st }
}

impl Hand {
    /// A hand for the manifest, idle.
    pub fn new(manifest: HandManifest) -> (r: Hand)
        ensures
            r == fresh_hand(manifest),
    {
        Hand { manifest, status: HandStatus::Idle }
    }
}

/// The registered hands, at most one per name.
pub struct HandRegistry {
    hands: Vec<Hand>,
}

impl HandRegistry {
    /// The registered hands, in registration order.
    pub closed spec fn hands(self) -> Seq<Hand> {
        self.hands@
    }

    /// The names of the registered hands.
    pub open spec fn names(self) -> Seq<Seq<char>> {
        self.hands().map_values(|h: Hand| h.manifest.name@)
    }

    /// No two hands share a name.
    pub open spec fn wf(self) -> bool {
        forall|i: int, j: int| 0 <= i < j < self.names().len() ==> self.names()[i] != self.names()[j]
    }

    /// An empty registry.
    pub fn new() -> (r: Self)
        ensures
            r.wf(),
            r.hands() == Seq::<Hand>::empty(),
    {
        HandRegistry { hands: Vec::new() }
    }

    fn find(&self, name: &str) -> (r: Option<usize>)
        ensures
            match r {
                Some(i) => i < self.hands@.len() && self.hands@[i as int].manifest.name@ == name@,
                None => !self.names().contains(name@),
            },
    {
        let mut i: usize = 0;
        while i < self.hands.len()
            invariant
                i <= self.hands.len(),
                forall|j: int| 0 <= j < i ==> self.hands@[j].manifest.name@ != name@,
            decreases self.hands.len() - i,
        {
            if str_eq(self.hands[i].manifest.name.as_str(), name) {
                return Some(i);
            }
            i = i + 1;
        }
        proof {
            if self.names().contains(name@) {
                let k = choose|k: int| 0 <= k < self.names().len() && self.names()[k] == name@;
                assert(self.hands@[k].manifest.name@ == name@);
            }
        }
        None
    }

    /// Registers a hand, idle; a hand already registered under the name is
    /// replaced in place.
    pub fn register(&mut self, manifest: HandManifest)
        requires
            old(self).wf(),
        ensures
            final(self).wf(),
            old(self).names().contains(manifest.name@) ==> exists|i: int|
                0 <= i < old(self).hands().len() && old(self).names()[i] == manifest.name@
                && final(self).hands() == old(self).hands().update(i, fresh_hand(manifest)),
            !old(self).names().contains(manifest.name@) ==> final(self).hands()
                == old(self).hands().push(fresh_hand(manifest)),
    {
        let ghost o = self.hands@;
        let ghost nm = manifest.name@;
        match self.find(manifest.name.as_str()) {
            Some(i) => {
                self.hands.set(i, Hand::new(manifest));
                assert(self.names() =~= old(self).names().update(i as int, nm));
                assert(old(self).names()[i as int] == nm);
            },
            None => {
                self.hands.push(Hand::new(manifest));
                assert(self.names() =~= old(self).names().push(nm));
            },
        }
    }

    /// The hand registered under `name`.
    pub fn get(&self, name: &str) -> (r: Option<&Hand>)
        ensures
            r is Some <==> self.names().contains(name@),
            r matches Some(h) ==> h.manifest.name@ == name@ && self.hands().contains(*h),
    {
        match self.find(name) {
            Some(i) => {
                assert(self.names()[i as int] == name@);
                Some(&self.hands[i])
            },
            None => None,
        }
    }

    /// Position of the hand registered under `name`.
    pub fn position(&self, name: &str) -> (r: Option<usize>)
        ensures
            r is Some <==> self.names().contains(name@),
            r matches Some(i) ==> i < self.hands().len() && self.names()[i as int] == name@,
    {
        let r = self.find(name);
        if let Some(i) = r {
            assert(self.names()[i as int] == name@);
        }
        r
    }

    /// Mutable access to the hand registered under `name`.  Changing its
    /// manifest's name through it can break the one-hand-per-name rule.
    pub fn get_mut(&mut self, name: &str) -> (r: Option<&mut Hand>)
        ensures
            r is Some <==> old(self).names().contains(name@),
            r is None ==> final(self).hands() == old(self).hands(),
            r is Some ==> exists|i: int|
                0 <= i < old(self).hands().len() && old(self).names()[i] == name@
                && *r->0 == old(self).hands()[i]
                && final(self).hands() == old(self).hands().update(i, *final(r->0)),
    {
        match self.find(name) {
            Some(i) => {
                assert(old(self).names()[i as int] == name@);
                Some(&mut self.hands[i])
            },
            None => None,
        }
    }

    proof fn lemma_fresh_name(self, ov: Seq<Hand>, i: int)
        requires
            self.wf(),
            holds_prefix(ov, self.hands@, i),
            0 <= i < self.hands@.len(),
        ensures
            forall|q: int| 0 <= q < ov.len() ==> (#[trigger] ov[q]).manifest.name@ != self.hands@[i].manifest.name@,
    {
        assert forall|q: int| 0 <= q < ov.len() implies (#[trigger] ov[q]).manifest.name@ != self.hands@[i].manifest.name@ by {
            let j = choose|j: int| 0 <= j < i && #[trigger] ov[q] == self.hands@[j];
            assert(self.names()[j] == self.hands@[j].manifest.name@);
            assert(self.names()[i] == self.hands@[i].manifest.name@);
        }
    }

    /// The hands ordered by name.
    pub fn list(&self) -> (r: Vec<&Hand>)
        requires
            self.wf(),
        ensures
            r@.len() == self.hands().len(),
            holds_prefix(r@.map_values(|h: &Hand| *h), self.hands(), self.hands().len() as int),
            sorted_names(r@.map_values(|h: &Hand| h.manifest.name@)),
    {
        let mut r: Vec<&Hand> = Vec::new();
        let mut i: usize = 0;
        while i < self.hands.len()
            invariant
                self.wf(),
                i <= self.hands.len(),
                r@.len() == i,
                holds_prefix(r@.map_values(|h: &Hand| *h), self.hands@, i as int),
                sorted_names(r@.map_values(|h: &Hand| h.manifest.name@)),
            decreases self.hands.len() - i,
        {
            let h = &self.hands[i];
            let ghost hn = h.manifest.name@;
            let ghost on = r@.map_values(|h: &Hand| h.manifest.name@);
            let ghost ov = r@.map_values(|h: &Hand| *h);
            let mut p: usize = 0;
            while p < r.len() && str_lt(r[p].manifest.name.as_str(), h.manifest.name.as_str())
                invariant
                    p <= r@.len(),
                    hn == h.manifest.name@,
                    on == r@.map_values(|h: &Hand| h.manifest.name@),
                    forall|q: int| 0 <= q < p ==> chars_lt(#[trigger] on[q], hn),
                decreases r@.len() - p,
            {
                p = p + 1;
            }
            proof {
                self.lemma_fresh_name(ov, i as int);
                assert forall|q: int| 0 <= q < on.len() implies #[trigger] on[q] != hn by {
                    assert(on[q] == ov[q].manifest.name@);
                }
                lemma_insert_point(on, p as int, hn);
                lemma_sorted_insert(on, p as int, hn);
                lemma_holds_insert(ov, self.hands@, i as int, p as int);
            }
            r.insert(p, h);
            proof {
                assert(r@.map_values(|h: &Hand| h.manifest.name@) =~= on.insert(p as int, hn));
                assert(r@.map_values(|h: &Hand| *h) =~= ov.insert(p as int, self.hands@[i as int]));
            }
            i = i + 1;
        }
        r
    }

    /// Number of registered hands.
    pub fn count(&self) -> (r: usize)
        ensures
            r == self.hands().len(),
    {
        self.hands.len()
    }

    /// Marks the hand registered under `name` idle and enabled; false when
    /// there is none.
    pub fn enable(&mut self, name: &str) -> (r: bool)
        requires
            old(self).wf(),
        ensures
            final(self).wf(),
            r == old(self).names().contains(name@),
            !r ==> final(self).hands() == old(self).hands(),
            r ==> exists|i: int| 0 <= i < old(self).hands().len() && old(self).names()[i] == name@
                && final(self).hands() == old(self).hands().update(
                    i, with_status(old(self).hands()[i], HandStatus::Idle, true)),
    {
        self.set_state(name, HandStatus::Idle, true)
    }

    /// Marks the hand registered under `name` disabled; false when there is
    /// none.
    pub fn disable(&mut self, name: &str) -> (r: bool)
        requires
            old(self).wf(),
        ensures
            final(self).wf(),
            r == old(self).names().contains(name@),
            !r ==> final(self).hands() == old(self).hands(),
            r ==> exists|i: int| 0 <= i < old(self).hands().len() && old(self).names()[i] == name@
                && final(self).hands() == old(self).hands().update(
                    i, with_status(old(self).hands()[i], HandStatus::Disabled, false)),
    {
        self.set_state(name, HandStatus::Disabled, false)
    }

    fn set_state(&mut self, name: &str, st: HandStatus, enabled: bool) -> (r: bool)
        requires
            old(self).wf(),
        ensures
            final(self).wf(),
            r == old(self).names().contains(name@),
            !r ==> final(self).hands() == old(self).hands(),
            r ==> exists|i: int| 0 <= i < old(self).hands().len() && old(self).names()[i] == name@
                && final(self).hands() == old(self).hands().update(
                    i, with_status(old(self).hands()[i], st, enabled)),
    {
        match self.find(name) {
            Some(i) => {
                let ghost o = self.hands@;
                let mut h = self.hands.remove(i);
                h.status = st;
                h.manifest.enabled = enabled;
                self.hands.insert(i, h);
                assert(self.hands@ =~= o.update(i as int, with_status(o[i as int], st, enabled)));
                assert(self.names() =~= old(self).names());
                assert(old(self).names()[i as int] == name@);
                true
            },
            None => false,
        }
    }

    /// A registry holding the built-in hands, in order, each idle.
    pub fn with_defaults() -> (r: Self)
        ensures
            r.wf(),
            r.names() == builtin_names(),
            r.hands().len() == 7,
            builtin_set(r.hands().map_values(|h: Hand| h.manifest)),
            forall|i: int| 0 <= i < 7 ==> (#[trigger] r.hands()[i]).status == HandStatus::Idle
                && r.hands()[i].manifest.enabled,
    {
        let ms = builtin_hands();
        let mut reg = HandRegistry::new();
        let mut i: usize = 0;
        proof {
            reveal_strlit("research");
            reveal_strlit("analytics");
            reveal_strlit("content");
            reveal_strlit("monitor");
            reveal_strlit("sync");
            reveal_strlit("outreach");
            reveal_strlit("security");
        }
        let ghost names = builtin_names();
        assert(forall|a: int, b: int| 0 <= a < b < 7 ==> names[a] != names[b]) by {
            assert(names[0].len() == 8 && names[1].len() == 9 && names[2].len() == 7);
            assert(names[3].len() == 7 && names[4].len() == 4 && names[5].len() == 8);
            assert(names[6].len() == 8);
            assert(names[0][0] != names[5][0] && names[0][0] != names[6][0] && names[5][0] != names[6][0]);
            assert(names[2][0] != names[3][0]);
        }
        let mut ms = ms;
        let ghost all = ms@;
        while ms.len() > 0
            invariant
                reg.wf(),
                names == builtin_names(),
                i + ms@.len() == 7,
                all.len() == 7,
                builtin_set(all),
                ms@ == all.subrange(i as int, 7),
                forall|a: int| 0 <= a < 7 ==> (#[trigger] all[a]).name@ == names[a],
                forall|a: int| 0 <= a < 7 ==> (#[trigger] all[a]).enabled,
                forall|a: int, b: int| 0 <= a < b < 7 ==> names[a] != names[b],
                reg.names() == names.take(i as int),
                reg.hands().len() == i,
                forall|a: int| 0 <= a < i ==> (#[trigger] reg.hands()[a]) == fresh_hand(all[a]),
            decreases ms@.len(),
        {
            let m = ms.remove(0);
            assert(m == all[i as int]);
            assert(!reg.names().contains(m.name@)) by {
                if reg.names().contains(m.name@) {
                    let k = choose|k: int| 0 <= k < reg.names().len() && reg.names()[k] == m.name@;
                    assert(names[k] == names[i as int]);
                }
            }
            let ghost before = reg.hands();
            let ghost bn = reg.names();
            reg.register(m);
            assert(reg.hands() == before.push(fresh_hand(all[i as int])));
            assert(reg.names() =~= bn.push(names[i as int]));
            assert(names.take(i as int + 1) =~= names.take(i as int).push(names[i as int]));
            i = i + 1;
        }
        assert(names.take(7) =~= names);
        assert(reg.hands().map_values(|h: Hand| h.manifest) =~= all);
        reg
    }
}

/// The names of the built-in hands, in the order they are registered.
pub open spec fn builtin_names() -> Seq<Seq<char>> {
    seq!["research"@, "analytics"@, "content"@, "monitor"@, "sync"@, "outreach"@, "security"@]
}

fn owned(s: &str) -> (r: String)
    ensures
        r@ == s@,
{
    String::from_str(s)
}

fn phase(name: &str, description: &str, tools: Vec<String>, timeout_secs: u64, requires_approval: bool) -> (r: PhaseManifest)
    ensures
        r.name@ == name@,
        r.allowed_tools == tools,
        r.timeout_secs == timeout_secs,
        r.requires_approval == requires_approval,
{
    PhaseManifest {
        name: owned(name),
        description: owned(description),
        allowed_tools: tools,
        timeout_secs,
        requires_approval,
    }
}

fn manifest(
    name: &str,
    label: &str,
    icon: &str,
    description: &str,
    schedule: HandSchedule,
    phases: Vec<PhaseManifest>,
    max_runtime_secs: u64,
    notify_channels: Vec<String>,
) -> (r: HandManifest)
    ensures
        r.name@ == name@,
        r.label@ == label@,
        r.icon@ == icon@,
        r.description@ == description@,
        r.schedule == schedule,
        r.phases == phases,
        r.max_runtime_secs == max_runtime_secs,
        r.enabled,
        r.notify_channels == notify_channels,
        r.provider@ == Seq::<char>::empty(),
        r.model@ == Seq::<char>::empty(),
{
    HandManifest {
        name: owned(name),
        label: owned(label),
        icon: owned(icon),
        description: owned(description),
        version: String::from_str("1.0.0"),
        schedule,
        phases,
        provider: String::new(),
        model: String::new(),
        max_runtime_secs,
        enabled: true,
        notify_channels,
    }
}

/// The seconds of an interval schedule.
pub open spec fn interval_of(s: HandSchedule) -> Option<u64> {
    match s {
        HandSchedule::Interval(n) => Some(n),
        _ => None,
    }
}

/// The expression of a cron schedule.
pub open spec fn cron_of(s: HandSchedule) -> Option<Seq<char>> {
    match s {
        HandSchedule::Cron(e) => Some(e@),
        _ => None,
    }
}

/// A hand's phases as (name, timeout, whether approval is needed).
pub open spec fn phase_plan(m: HandManifest) -> Seq<(Seq<char>, u64, bool)> {
    m.phases@.map_values(|p: PhaseManifest| (p.name@, p.timeout_secs, p.requires_approval))
}

/// The labels of the built-in hands.
pub open spec fn builtin_labels() -> Seq<Seq<char>> {
    seq!["Research Hand"@, "Analytics Hand"@, "Content Hand"@, "Monitor Hand"@, "Sync Hand"@,
        "Outreach Hand"@, "Security Hand"@]
}

/// The phases of the built-in hands.
pub open spec fn builtin_phase_plans() -> Seq<Seq<(Seq<char>, u64, bool)>> {
    seq![
        seq![("gather"@, 600u64, false), ("analyze"@, 300u64, false), ("report"@, 120u64, false)],
        seq![("collect"@, 300u64, false), ("process"@, 300u64, false), ("report"@, 120u64, false)],
        seq![("ideate"@, 300u64, false), ("create"@, 600u64, false), ("review"@, 300u64, true)],
        seq![("check"@, 60u64, false), ("alert"@, 30u64, false)],
        seq![("fetch"@, 120u64, false), ("reconcile"@, 180u64, false), ("push"@, 120u64, true)],
        seq![("prepare"@, 300u64, false), ("review"@, 60u64, true), ("send"@, 300u64, false)],
        seq![("scan"@, 600u64, false), ("analyze"@, 300u64, false), ("report"@, 120u64, false)],
    ]
}

/// The built-in hand manifests: the names, labels, schedules, run-time
/// limits, phases and notification channels of the seven built-in hands.
pub open spec fn builtin_set(ms: Seq<HandManifest>) -> bool {
    &&& ms.len() == 7
    &&& forall|i: int| 0 <= i < 7 ==> (#[trigger] ms[i]).name@ == builtin_names()[i]
    &&& forall|i: int| 0 <= i < 7 ==> (#[trigger] ms[i]).enabled
    &&& ms.map_values(|m: HandManifest| m.label@) == builtin_labels()
    &&& ms.map_values(|m: HandManifest| interval_of(m.schedule))
        == seq![Some(21600u64), None, None, Some(300u64), Some(1800u64), None, Some(3600u64)]
    &&& ms.map_values(|m: HandManifest| cron_of(m.schedule))
        == seq![None, Some("0 6 * * *"@), Some("0 8 * * *"@), None, None, Some("0 9 * * 1-5"@), None]
    &&& ms.map_values(|m: HandManifest| m.max_runtime_secs) == seq![1800u64, 900, 1800, 120, 600, 900, 1200]
    &&& ms.map_values(|m: HandManifest| phase_plan(m)) == builtin_phase_plans()
    &&& ms.map_values(|m: HandManifest| m.notify_channels@.map_values(|c: String| c@))
        == seq![seq!["telegram"@], seq!["telegram"@], seq!["telegram"@], seq!["telegram"@],
            Seq::<Seq<char>>::empty(), seq!["telegram"@], seq!["telegram"@]]
}

/// The seven built-in hands: research every 6 hours, analytics daily at
/// 6:00, content daily at 8:00, monitor every 5 minutes, sync every 30
/// minutes, outreach at 9:00 on weekdays and security every hour; all
/// enabled and, but for sync, reporting on Telegram.
pub fn builtin_hands() -> (r: Vec<HandManifest>)
    ensures
        builtin_set(r@),
{
    let research = manifest(
        "research",
        "Research Hand",
        "🔍",
        "Autonomous competitive research, trend analysis, and knowledge graph building. Wakes up, searches the web, analyzes competitors, and builds structured reports.",
        HandSchedule::Interval(21600),
        vec![
            phase("gather", "Search web for relevant topics and competitor info", vec![owned("web_search"), owned("http_request")], 600, false),
            phase("analyze", "Analyze gathered data and extract insights", vec![owned("execute_code")], 300, false),
            phase("report", "Generate structured report and update knowledge graph", vec![owned("file")], 120, false),
        ],
        1800,
        vec![owned("telegram")],
    );
    let analytics = manifest(
        "analytics",
        "Analytics Hand",
        "📊",
        "Daily data collection, metric tracking, and trend analysis. Collects KPIs, generates charts, and sends daily digest.",
        HandSchedule::Cron(owned("0 6 * * *")),
        vec![
            phase("collect", "Collect metrics from configured data sources", vec![owned("http_request"), owned("shell")], 300, false),
            phase("process", "Process and analyze collected data", vec![owned("execute_code")], 300, false),
            phase("report", "Generate daily analytics digest", vec![owned("file")], 120, false),
        ],
        900,
        vec![owned("telegram")],
    );
    let content = manifest(
        "content",
        "Content Hand",
        "📝",
        "Automated content creation and scheduling. Generates blog posts, social media content, and marketing materials.",
        HandSchedule::Cron(owned("0 8 * * *")),
        vec![
            phase("ideate", "Research trending topics and generate content ideas", vec![owned("web_search")], 300, false),
            phase("create", "Write content drafts", vec![owned("file")], 600, false),
            phase("review", "Quality check and finalize content", vec![owned("file")], 300, true),
        ],
        1800,
        vec![owned("telegram")],
    );
    let monitor = manifest(
        "monitor",
        "Monitor Hand",
        "🔔",
        "Real-time system monitoring and alerting. Checks service health, SSL certs, uptime, and sends alerts on issues.",
        HandSchedule::Interval(300),
        vec![
            phase("check", "Run health checks on configured endpoints", vec![owned("http_request"), owned("shell")], 60, false),
            phase("alert", "Generate and send alerts for any issues detected", Vec::new(), 30, false),
        ],
        120,
        vec![owned("telegram")],
    );
    let sync = manifest(
        "sync",
        "Sync Hand",
        "🔄",
        "Cross-system data synchronization. Keeps databases, APIs, and services in sync.",
        HandSchedule::Interval(1800),
        vec![
            phase("fetch", "Fetch latest data from source systems", vec![owned("http_request")], 120, false),
            phase("reconcile", "Compare and reconcile differences", vec![owned("execute_code")], 180, false),
            phase("push", "Push synchronized data to target systems", vec![owned("http_request")], 120, true),
        ],
        600,
        Vec::new(),
    );
    let outreach = manifest(
        "outreach",
        "Outreach Hand",
        "📧",
        "Automated email outreach and follow-up. Personalizes emails, tracks responses, and manages sequences.",
        HandSchedule::Cron(owned("0 9 * * 1-5")),
        vec![
            phase("prepare", "Build contact list and personalize messages", vec![owned("file"), owned("web_search")], 300, false),
            phase("review", "Review and approve outreach batch", Vec::new(), 60, true),
            phase("send", "Send approved emails", vec![owned("http_request")], 300, false),
        ],
        900,
        vec![owned("telegram")],
    );
    let security = manifest(
        "security",
        "Security Hand",
        "🛡️",
        "Periodic security scanning and compliance checking. Scans for vulnerabilities, checks SSL certs, monitors CVEs.",
        HandSchedule::Interval(3600),
        vec![
            phase("scan", "Run security scans on configured targets", vec![owned("http_request"), owned("shell")], 600, false),
            phase("analyze", "Analyze scan results and assess severity", vec![owned("execute_code")], 300, false),
            phase("report", "Generate security report and alert on critical issues", vec![owned("file")], 120, false),
        ],
        1200,
        vec![owned("telegram")],
    );
    let r = vec![research, analytics, content, monitor, sync, outreach, security];
    assert(r@.map_values(|m: HandManifest| m.max_runtime_secs) =~= seq![1800u64, 900, 1800, 120, 600, 900, 1200]);
    assert(r@.map_values(|m: HandManifest| m.label@) =~= builtin_labels());
    assert(r@.map_values(|m: HandManifest| interval_of(m.schedule))
        =~= seq![Some(21600u64), None, None, Some(300u64), Some(1800u64), None, Some(3600u64)]);
    assert(r@.map_values(|m: HandManifest| cron_of(m.schedule))
        =~= seq![None, Some("0 6 * * *"@), Some("0 8 * * *"@), None, None, Some("0 9 * * 1-5"@), None]);
    assert(r@.map_values(|m: HandManifest| phase_plan(m)) =~~= builtin_phase_plans());
    assert(r@.map_values(|m: HandManifest| m.notify_channels@.map_values(|c: String| c@))
        =~~= seq![seq!["telegram"@], seq!["telegram"@], seq!["telegram"@], seq!["telegram"@],
            Seq::<Seq<char>>::empty(), seq!["telegram"@], seq!["telegram"@]]);
    r
}

impl Default for HandRegistry {
    fn default() -> (r: Self)
        ensures
            r.wf(),
            r.hands() == Seq::<Hand>::empty(),
    {
        HandRegistry::new()
    }
}

/// What sets a guardrail off.
#[derive(Debug, Clone)]
pub enum GuardrailTrigger {
    /// Use of the named tool ("shell", "http_request").
    ToolUse(String),
    /// A write to the named file.
    FileWrite(String),
    /// A call to the named external API.
    ExternalApi(String),
    /// Spending above an amount, held as the bit pattern of an `f64`.
    CostThreshold(u64),
    /// Token use above a count.
    TokenThreshold(u64),
    Custom(String),
}

/// What happens when a guardrail goes off.
#[derive(Debug, Clone, Copy, PartialEq, Eq, Structural)]
pub enum GuardrailAction {
    /// Pause until a person approves.
    RequireApproval,
    LogAndContinue,
    /// Refuse the action.
    Block,
    /// Tell an administrator and go on.
    NotifyAndContinue,
}

/// One guardrail rule.
#[derive(Debug, Clone)]
pub struct Guardrail {
    pub name: String,
    pub description: String,
    pub trigger: GuardrailTrigger,
    pub action: GuardrailAction,
    pub enabled: bool,
}

/// The guardrails of a hand.
#[derive(Debug, Clone)]
pub struct GuardrailConfig {
    pub rules: Vec<Guardrail>,
}

/// An enabled rule on use of `tool` whose action is `action`.
pub open spec fn gates_tool(g: Guardrail, tool: Seq<char>, action: GuardrailAction) -> bool {
    &&& g.enabled
    &&& g.trigger matches GuardrailTrigger::ToolUse(t) && t@ == tool
    &&& g.action == action
}

impl GuardrailConfig {
    fn first_gate(&self, tool: &str, action: GuardrailAction) -> (r: Option<usize>)
        ensures
            match r {
                Some(i) => i < self.rules@.len() && gates_tool(self.rules@[i as int], tool@, action)
                    && forall|j: int| 0 <= j < i ==> !gates_tool(#[trigger] self.rules@[j], tool@, action),
                None => forall|j: int| 0 <= j < self.rules@.len() ==> !gates_tool(#[trigger] self.rules@[j], tool@, action),
            },
    {
        let mut i: usize = 0;
        while i < self.rules.len()
            invariant
                i <= self.rules.len(),
                forall|j: int| 0 <= j < i ==> !gates_tool(#[trigger] self.rules@[j], tool@, action),
            decreases self.rules.len() - i,
        {
            let g = &self.rules[i];
            if g.enabled && g.action == action {
                match &g.trigger {
                    GuardrailTrigger::ToolUse(t) => {
                        if str_eq(t.as_str(), tool) {
                            return Some(i);
                        }
                    },
                    _ => {},
                }
            }
            i = i + 1;
        }
        None
    }

    /// The first enabled rule that blocks use of the tool.
    pub fn check_tool(&self, tool_name: &str) -> (r: Option<&Guardrail>)
        ensures
            match r {
                Some(g) => exists|i: int| 0 <= i < self.rules@.len() && self.rules@[i] == *g
                    && gates_tool(*g, tool_name@, GuardrailAction::Block)
                    && forall|j: int| 0 <= j < i ==> !gates_tool(#[trigger] self.rules@[j], tool_name@, GuardrailAction::Block),
                None => forall|j: int| 0 <= j < self.rules@.len() ==> !gates_tool(#[trigger] self.rules@[j], tool_name@, GuardrailAction::Block),
            },
    {
        match self.first_gate(tool_name, GuardrailAction::Block) {
            Some(i) => Some(&self.rules[i]),
            None => None,
        }
    }

    /// Whether an enabled rule asks for approval before the tool is used.
    pub fn requires_approval(&self, tool_name: &str) -> (r: bool)
        ensures
            r == exists|i: int| 0 <= i < self.rules@.len()
                && gates_tool(#[trigger] self.rules@[i], tool_name@, GuardrailAction::RequireApproval),
    {
        self.first_gate(tool_name, GuardrailAction::RequireApproval).is_some()
    }
}

impl Default for GuardrailConfig {
    fn default() -> (r: Self)
        ensures
            r.rules@.len() == 0,
    {
        GuardrailConfig { rules: Vec::new() }
    }
}


/// Enabling a hand after disabling it leaves it as enabling alone would:
/// idle and enabled, everything else as it was.
pub proof fn lemma_disable_then_enable(h: Hand)
    ensures
        with_status(with_status(h, HandStatus::Disabled, false), HandStatus::Idle, true)
            == with_status(h, HandStatus::Idle, true),
        with_status(h, HandStatus::Disabled, false).manifest.name == h.manifest.name,
{
}

/// A registered hand is found again under its name.
pub proof fn lemma_registered_is_found(hands: Seq<Hand>, m: HandManifest, i: int)
    requires
        0 <= i <= hands.len(),
    ensures
        (if i < hands.len() { hands.update(i, fresh_hand(m)) } else { hands.push(fresh_hand(m)) })
            .map_values(|h: Hand| h.manifest.name@).contains(m.name@),
{
    let n = if i < hands.len() { hands.update(i, fresh_hand(m)) } else { hands.push(fresh_hand(m)) };
    let k = if i < hands.len() { i } else { hands.len() as int };
    assert(n.map_values(|h: Hand| h.manifest.name@)[k] == m.name@);
}

} // verus!
