//! The gateway's system health report: seven checks, how many passed and
//! failed, the score and the overall state, from facts that the caller
//! gathered about files, the provider, the brain workspace, the Ollama
//! server and the agent engine.

use vstd::prelude::*;
use vstd::string::*;
use crate::text::{decimal, str_eq, u64_to_string};

verus! {

/// The outcome of one check.
#[derive(Debug, Clone, Copy, PartialEq, Eq, Structural)]
pub enum CheckStatus {
    Pass,
    Fail,
    Warn,
    Skip,
}

/// The overall state: no failure, one or two, or more.
#[derive(Debug, Clone, Copy, PartialEq, Eq, Structural)]
pub enum Overall {
    Healthy,
    Degraded,
    Critical,
}

/// What the caller found out before the report is made.
#[derive(Debug, Clone)]
pub struct HealthFacts {
    /// The configuration file's path, as shown.
    pub config_path: String,
    pub config_exists: bool,
    /// The default provider and model of the configuration.
    pub provider: String,
    pub model: String,
    pub api_key_set: bool,
    /// Brain workspace files that exist, and how many there are in all.
    pub brain_files_present: u64,
    pub brain_files_total: u64,
    /// Whether the Ollama server answered; only asked for the "ollama"
    /// provider.
    pub ollama_reachable: bool,
    pub agent_ready: bool,
}

/// One line of the report.
#[derive(Debug, Clone)]
pub struct HealthCheck {
    pub name: String,
    pub status: CheckStatus,
    pub detail: String,
}

/// The report: the checks in order, the counts, the score in percent and
/// the overall state.
#[derive(Debug)]
pub struct HealthReport {
    pub checks: Vec<HealthCheck>,
    pub pass: u32,
    pub fail: u32,
    pub score_pct: u32,
    pub overall: Overall,
}

/// Providers that need no API key.
pub open spec fn keyless_provider(p: Seq<char>) -> bool {
    p == "ollama"@ || p == "brain"@ || p == "llamacpp"@
}

pub open spec fn key_ok(f: HealthFacts) -> bool {
    keyless_provider(f.provider@) || f.api_key_set
}

pub open spec fn uses_ollama(f: HealthFacts) -> bool {
    f.provider@ == "ollama"@
}

pub open spec fn brain_ok(f: HealthFacts) -> bool {
    f.brain_files_present >= 3
}

pub open spec fn pass_fail(ok: bool) -> CheckStatus {
    if ok { CheckStatus::Pass } else { CheckStatus::Fail }
}

pub open spec fn miss(ok: bool) -> nat {
    if ok { 0 } else { 1 }
}

/// The checks that do not pass: a missing configuration file or API key,
/// no model, fewer than three brain files, an unreachable Ollama server
/// where it is the provider, or no agent engine.
pub open spec fn failures(f: HealthFacts) -> nat {
    miss(f.config_exists) + miss(key_ok(f)) + miss(f.model@.len() > 0) + miss(brain_ok(f))
        + miss(!uses_ollama(f) || f.ollama_reachable) + miss(f.agent_ready)
}

/// The seven checks, as (name, status, detail).
pub open spec fn expected_checks(f: HealthFacts) -> Seq<(Seq<char>, CheckStatus, Seq<char>)> {
    seq![
        ("Config File"@, pass_fail(f.config_exists), f.config_path@),
        ("API Key"@, pass_fail(key_ok(f)),
            f.provider@ + (if key_ok(f) { ": configured"@ } else { ": API key missing!"@ })),
        ("Model"@, if f.model@.len() > 0 { CheckStatus::Pass } else { CheckStatus::Warn },
            f.provider@ + "/"@ + f.model@),
        ("Brain Workspace"@, if brain_ok(f) { CheckStatus::Pass } else { CheckStatus::Warn },
            decimal(f.brain_files_present as nat) + "/"@ + decimal(f.brain_files_total as nat) + " files"@),
        ("Ollama Server"@,
            if uses_ollama(f) { pass_fail(f.ollama_reachable) } else { CheckStatus::Skip },
            if !uses_ollama(f) {
                "Not needed for "@ + f.provider@
            } else if f.ollama_reachable {
                "Running on localhost:11434"@
            } else {
                "Not reachable at localhost:11434"@
            }),
        ("Agent Engine"@, pass_fail(f.agent_ready),
            if f.agent_ready { "Initialized and ready"@ } else { "Not initialized"@ }),
        ("Memory Backend"@, CheckStatus::Pass, "SQLite FTS5"@),
    ]
}

/// The overall state for a number of failures.
pub open spec fn overall_of(fail: nat) -> Overall {
    if fail == 0 {
        Overall::Healthy
    } else if fail <= 2 {
        Overall::Degraded
    } else {
        Overall::Critical
    }
}

pub open spec fn checks_view(cs: Seq<HealthCheck>) -> Seq<(Seq<char>, CheckStatus, Seq<char>)> {
    cs.map_values(|c: HealthCheck| (c.name@, c.status, c.detail@))
}

fn check(name: &str, status: CheckStatus, detail: String) -> (r: HealthCheck)
    ensures
        r.name@ == name@,
        r.status == status,
        r.detail@ == detail@,
{
    HealthCheck { name: String::from_str(name), status, detail }
}

fn joined(a: &str, b: &str) -> (r: String)
    ensures
        r@ == a@ + b@,
{
    let mut r = String::from_str(a);
    r.append(b);
    r
}

/// The health report for what the caller found out.
pub fn health_report(f: &HealthFacts) -> (r: HealthReport)
    ensures
        checks_view(r.checks@) == expected_checks(*f),
        r.fail == failures(*f),
        r.pass + r.fail == 7,
        r.score_pct == r.pass * 100 / 7,
        r.overall == overall_of(r.fail as nat),
{
    let mut checks: Vec<HealthCheck> = Vec::new();
    let mut fail: u32 = 0;

    let config_ok = f.config_exists;
    let detail = String::from_str(f.config_path.as_str());
    checks.push(check("Config File", if config_ok { CheckStatus::Pass } else { CheckStatus::Fail }, detail));
    if !config_ok {
        fail = fail + 1;
    }

    let provider = f.provider.as_str();
    let keyless = str_eq(provider, "ollama") || str_eq(provider, "brain") || str_eq(provider, "llamacpp");
    let key_ok = keyless || f.api_key_set;
    let detail = joined(provider, if key_ok { ": configured" } else { ": API key missing!" });
    checks.push(check("API Key", if key_ok { CheckStatus::Pass } else { CheckStatus::Fail }, detail));
    if !key_ok {
        fail = fail + 1;
    }

    let model_ok = !f.model.as_str().is_empty();
    let mut detail = joined(provider, "/");
    detail.append(f.model.as_str());
    checks.push(check("Model", if model_ok { CheckStatus::Pass } else { CheckStatus::Warn }, detail));
    if !model_ok {
        fail = fail + 1;
    }

    let brain_ok = f.brain_files_present >= 3;
    let mut detail = u64_to_string(f.brain_files_present);
    detail.append("/");
    let total = u64_to_string(f.brain_files_total);
    detail.append(total.as_str());
    detail.append(" files");
    checks.push(check("Brain Workspace", if brain_ok { CheckStatus::Pass } else { CheckStatus::Warn }, detail));
    if !brain_ok {
        fail = fail + 1;
    }

    if str_eq(provider, "ollama") {
        if f.ollama_reachable {
            checks.push(check("Ollama Server", CheckStatus::Pass, String::from_str("Running on localhost:11434")));
        } else {
            checks.push(check("Ollama Server", CheckStatus::Fail, String::from_str("Not reachable at localhost:11434")));
            fail = fail + 1;
        }
    } else {
        checks.push(check("Ollama Server", CheckStatus::Skip, joined("Not needed for ", provider)));
    }

    if f.agent_ready {
        checks.push(check("Agent Engine", CheckStatus::Pass, String::from_str("Initialized and ready")));
    } else {
        checks.push(check("Agent Engine", CheckStatus::Fail, String::from_str("Not initialized")));
        fail = fail + 1;
    }

    checks.push(check("Memory Backend", CheckStatus::Pass, String::from_str("SQLite FTS5")));

    assert(checks_view(checks@) =~= expected_checks(*f));
    let pass: u32 = 7 - fail;
    let overall = if fail == 0 {
        Overall::Healthy
    } else if fail <= 2 {
        Overall::Degraded
    } else {
        Overall::Critical
    };
    HealthReport { checks, pass, fail, score_pct: pass * 100 / 7, overall }
}

} // verus!
