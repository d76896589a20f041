//! Scheduled tasks requested from the dashboard: what a task does, when it
//! runs, and where its result goes, read from the request's JSON.

use vstd::prelude::*;
use vstd::string::*;
use crate::json::{get, i64_in, i64_of, member, str_of, text_in, u64_in, u64_of, JsonValue};
use crate::text::str_eq;

verus! {

/// What a task does when it runs.
#[derive(Debug, Clone)]
pub enum TaskAction {
    /// Send this prompt to the agent.
    AgentPrompt(String),
    /// Send this notification.
    Notify(String),
}

/// When a task runs.
#[derive(Debug, Clone)]
pub enum TaskTiming {
    /// At the times of a cron expression.
    Cron(String),
    /// Once, this many seconds from now.
    Once(i64),
    /// Every so many seconds.
    Interval(u64),
}

/// A task to schedule.
#[derive(Debug, Clone)]
pub struct TaskRequest {
    pub name: String,
    pub action: TaskAction,
    pub timing: TaskTiming,
    /// The agent that runs the prompt, where one is named.
    pub agent_name: Option<String>,
    /// Where the result is delivered, where that is named.
    pub deliver_to: Option<String>,
}

/// A text member, or a default.
pub open spec fn text_or(v: JsonValue, key: Seq<char>, default: Seq<char>) -> Seq<char> {
    match str_of(member(v, key)) {
        Some(s) => s,
        None => default,
    }
}

/// A text member that is given and not empty.
pub open spec fn non_empty(v: JsonValue, key: Seq<char>) -> Option<Seq<char>> {
    match str_of(member(v, key)) {
        Some(s) => if s.len() > 0 { Some(s) } else { None },
        None => None,
    }
}

/// The first of two text members that is given.
pub open spec fn first_text(v: JsonValue, a: Seq<char>, b: Seq<char>) -> Option<Seq<char>> {
    match str_of(member(v, a)) {
        Some(s) => Some(s),
        None => str_of(member(v, b)),
    }
}

/// The task a request asks for: a non-empty "prompt" makes an agent
/// prompt, else a non-empty "action" a notification, else the request is
/// refused. "task_type" (or "type", default "cron") picks the timing: a
/// cron expression from "cron" or "expression" (default "0 * * * *"), once
/// after "delay_secs" (default 60), or any other type every
/// "interval_secs" (default 300).
pub open spec fn task_of(body: JsonValue, r: Result<TaskRequest, String>) -> bool {
    let prompt = text_or(body, "prompt"@, Seq::empty());
    let action = text_or(body, "action"@, Seq::empty());
    let kind = match first_text(body, "task_type"@, "type"@) {
        Some(t) => t,
        None => "cron"@,
    };
    if prompt.len() == 0 && action.len() == 0 {
        r matches Err(e) && e@ == "Either 'prompt' or 'action' is required"@
    } else {
        &&& r matches Ok(t)
        &&& t.name@ == text_or(body, "name"@, "unnamed"@)
        &&& (if prompt.len() > 0 {
                t.action matches TaskAction::AgentPrompt(p) && p@ == prompt
            } else {
                t.action matches TaskAction::Notify(a) && a@ == action
            })
        &&& (if kind == "cron"@ {
                t.timing matches TaskTiming::Cron(e) && e@ == (match first_text(body, "cron"@, "expression"@) {
                    Some(x) => x,
                    None => "0 * * * *"@,
                })
            } else if kind == "once"@ {
                t.timing matches TaskTiming::Once(d) && d == (match i64_of(member(body, "delay_secs"@)) {
                    Some(x) => x,
                    None => 60,
                })
            } else {
                t.timing matches TaskTiming::Interval(s) && s == (match u64_of(member(body, "interval_secs"@)) {
                    Some(x) => x,
                    None => 300,
                })
            })
        &&& (match t.agent_name { Some(a) => Some(a@), None => None }) == non_empty(body, "agent_name"@)
        &&& (match t.deliver_to { Some(d) => Some(d@), None => None }) == non_empty(body, "deliver_to"@)
    }
}

fn text_field(body: &JsonValue, key: &str, default: &str) -> (r: String)
    ensures
        r@ == text_or(*body, key@, default@),
{
    match text_in(get(body, key)) {
        Some(s) => String::from_str(s),
        None => String::from_str(default),
    }
}

fn non_empty_field(body: &JsonValue, key: &str) -> (r: Option<String>)
    ensures
        (match r { Some(s) => Some(s@), None => None }) == non_empty(*body, key@),
{
    match text_in(get(body, key)) {
        Some(s) => if s.is_empty() { None } else { Some(String::from_str(s)) },
        None => None,
    }
}

fn first_field<'a>(body: &'a JsonValue, a: &str, b: &str) -> (r: Option<&'a str>)
    ensures
        (match r { Some(s) => Some(s@), None => None }) == first_text(*body, a@, b@),
{
    match text_in(get(body, a)) {
        Some(s) => Some(s),
        None => text_in(get(body, b)),
    }
}

/// The task a dashboard request asks for.
pub fn task_request(body: &JsonValue) -> (r: Result<TaskRequest, String>)
    ensures
        task_of(*body, r),
{
    proof {
        reveal_strlit("");
        reveal_strlit("cron");
        reveal_strlit("once");
        assert("cron"@[0] != "once"@[0]);
    }
    let name = text_field(body, "name", "unnamed");
    let prompt = text_field(body, "prompt", "");
    let action_text = text_field(body, "action", "");
    let action = if !prompt.as_str().is_empty() {
        TaskAction::AgentPrompt(prompt)
    } else if !action_text.as_str().is_empty() {
        TaskAction::Notify(action_text)
    } else {
        return Err(String::from_str("Either 'prompt' or 'action' is required"));
    };
    let kind = match first_field(body, "task_type", "type") {
        Some(t) => t,
        None => "cron",
    };
    let timing = if str_eq(kind, "cron") {
        let expr = match first_field(body, "cron", "expression") {
            Some(e) => String::from_str(e),
            None => String::from_str("0 * * * *"),
        };
        TaskTiming::Cron(expr)
    } else if str_eq(kind, "once") {
        let d = match i64_in(get(body, "delay_secs")) {
            Some(x) => x,
            None => 60,
        };
        TaskTiming::Once(d)
    } else {
        let s = match u64_in(get(body, "interval_secs")) {
            Some(x) => x,
            None => 300,
        };
        TaskTiming::Interval(s)
    };
    Ok(TaskRequest {
        name,
        action,
        timing,
        agent_name: non_empty_field(body, "agent_name"),
        deliver_to: non_empty_field(body, "deliver_to"),
    })
}

} // verus!
