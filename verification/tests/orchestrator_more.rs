use bizclaw::orchestrator::{DelegationRecord, DELEGATION_RESULT_BYTES};
use bizclaw::orchestrator::{EvalAction, EvalLoop};
use bizclaw::orchestrator::{
    check_claim, clamp_rounds, evaluate_verdict, review_rejects, safe_truncate, AgentMessage,
    ClaimError, DelegationError, DelegationFacts, EvalVerdict, Orchestrator, TaskStatus,
};

#[test]
fn truncation_on_char_boundaries() {
    assert_eq!(safe_truncate("hello", 10), "hello");
    assert_eq!(safe_truncate("hello", 3), "hel");
    assert_eq!(safe_truncate("héllo", 2), "h");
    assert_eq!(safe_truncate("héllo", 3), "hé");
}

#[test]
fn verdicts() {
    assert_eq!(evaluate_verdict("  APPROVED, nice"), EvalVerdict::Approved);
    assert_eq!(evaluate_verdict("REJECTED: fix it "), EvalVerdict::Rejected("fix it".into()));
    assert_eq!(evaluate_verdict("REJECTED more"), EvalVerdict::Rejected("more".into()));
    assert_eq!(evaluate_verdict(" meh "), EvalVerdict::Rejected("meh".into()));
    assert!(review_rejects(" REJECTED: no"));
    assert!(!review_rejects("ok"));
    assert_eq!(clamp_rounds(9), 5);
    assert_eq!(clamp_rounds(2), 2);
}

#[test]
fn claims() {
    let deps = vec![("a".to_string(), Some(TaskStatus::Completed)), ("b".to_string(), None), ("c".to_string(), Some(TaskStatus::InProgress))];
    assert_eq!(check_claim("t", &None, &deps), Err(ClaimError::Blocked { dependency: "c".into(), status: TaskStatus::InProgress }));
    let ok = vec![("a".to_string(), Some(TaskStatus::Completed))];
    assert_eq!(check_claim("t", &None, &ok), Ok(()));
    assert_eq!(check_claim("t", &Some("bob".into()), &ok), Err(ClaimError::AlreadyClaimed { task: "t".into(), by: "bob".into() }));
}

#[test]
fn delegations() {
    let mut o: Orchestrator<u8> = Orchestrator::new();
    o.add_agent("a", "r", "d", 0);
    o.add_agent("b", "r", "d", 0);
    assert_eq!(o.check_delegation("x", "b", None), Err(DelegationError::AgentNotFound("x".into())));
    assert_eq!(o.check_delegation("a", "y", None), Err(DelegationError::AgentNotFound("y".into())));
    assert_eq!(o.check_delegation("a", "b", None), Ok(()));
    let deny = DelegationFacts { has_links: true, permitted: false, active_count: 0 };
    assert_eq!(o.check_delegation("a", "b", Some(deny)), Err(DelegationError::NoPermission { from: "a".into(), to: "b".into() }));
    let busy = DelegationFacts { has_links: false, permitted: false, active_count: 10 };
    assert_eq!(o.check_delegation("a", "b", Some(busy)), Err(DelegationError::AtMaxLoad { agent: "b".into(), active: 10, max: 10 }));
}

#[test]
fn message_log_and_recent() {
    let mut o: Orchestrator<u8> = Orchestrator::new();
    o.add_agent("a", "r", "d", 0);
    let long = "x".repeat(250);
    o.log_message(AgentMessage { from: "user".into(), to: "a".into(), content: long, response: Some("ok".into()), timestamp: "t0".into() });
    o.log_message(AgentMessage { from: "user".into(), to: "a".into(), content: "second".into(), response: None, timestamp: "t1".into() });
    let r = o.recent_messages(1);
    assert_eq!(r.len(), 1);
    assert_eq!(r[0].content, "second");
    let all = o.recent_messages(10);
    assert_eq!(all.len(), 2);
    assert_eq!(all[0].content, "second");
    assert_eq!(all[1].content.len(), 200);
    assert_eq!(all[1].response.as_deref(), Some("ok"));
    assert!(o.note_message("a"));
    assert!(!o.note_message("z"));
    assert_eq!(o.list_agents()[0].message_count, 1);
    assert!(o.list_agents()[0].is_default);
}

#[test]
fn evaluation_and_review_prompts() {
    let (task, criteria, output) = ("Viết slogan", "ngắn gọn", "Cà phê ngon");
    assert_eq!(
        bizclaw::orchestrator::evaluation_prompt(task, criteria, output),
        format!(
            "[Quality Evaluation]\n\
             Task: {}\n\
             Pass criteria: {}\n\
             Output to evaluate:\n\
             ---\n\
             {}\n\
             ---\n\
             Respond with EXACTLY one of:\n\
             APPROVED - if the output meets the criteria\n\
             REJECTED: <feedback> - if the output needs improvement",
            task, criteria, output
        )
    );
    assert_eq!(
        bizclaw::orchestrator::review_prompt("on_complete", output),
        format!(
            "[Quality Gate Review]\n\
             Event: {}\n\
             Please review and validate this output:\n\
             ---\n\
             {}\n\
             ---\n\
             Respond APPROVED or REJECTED: <reason>",
            "on_complete", output
        )
    );
}

#[test]
fn eval_loop_approves_in_second_round() {
    let (mut lp, first) = EvalLoop::begin(3);
    assert!(matches!(first, EvalAction::Generate { round: 1, feedback: None }));
    assert!(matches!(lp.generated("draft".to_string()), EvalAction::Evaluate { .. }));
    match lp.evaluated("  REJECTED: add numbers ") {
        EvalAction::Generate { round, feedback } => {
            assert_eq!(round, 2);
            assert_eq!(feedback.as_deref(), Some("add numbers"));
        }
        other => panic!("unexpected {:?}", other),
    }
    match lp.generated("final".to_string()) {
        EvalAction::Evaluate { output } => assert_eq!(output, "final"),
        other => panic!("unexpected {:?}", other),
    }
    match lp.evaluated("APPROVED looks good") {
        EvalAction::Finish(res) => {
            assert!(res.approved);
            assert_eq!(res.output, "final");
            assert_eq!(res.feedback, None);
            assert_eq!(res.rounds_used, 2);
            assert_eq!(res.max_rounds, 3);
        }
        other => panic!("unexpected {:?}", other),
    }
}

#[test]
fn eval_loop_gives_up_after_capped_rounds() {
    let (mut lp, _) = EvalLoop::begin(9);
    for round in 1..=5u32 {
        lp.generated(format!("out{}", round));
        match lp.evaluated("REJECTED too short") {
            EvalAction::Generate { round: r, feedback } => {
                assert_eq!(r, round + 1);
                assert_eq!(feedback.as_deref(), Some("too short"));
            }
            EvalAction::Finish(res) => {
                assert_eq!(round, 5);
                assert!(!res.approved);
                assert_eq!(res.output, "out5");
                assert_eq!(res.feedback.as_deref(), Some("too short"));
                assert_eq!(res.rounds_used, 5);
                assert_eq!(res.max_rounds, 5);
            }
            other => panic!("unexpected {:?}", other),
        }
    }
}

#[test]
fn eval_loop_with_no_rounds_and_free_feedback() {
    let (_, first) = EvalLoop::begin(0);
    match first {
        EvalAction::Finish(res) => {
            assert!(!res.approved);
            assert_eq!(res.output, "");
            assert_eq!(res.rounds_used, 0);
        }
        other => panic!("unexpected {:?}", other),
    }
    let (mut lp, _) = EvalLoop::begin(1);
    lp.generated("x".to_string());
    match lp.evaluated(" needs work ") {
        EvalAction::Finish(res) => {
            assert!(!res.approved);
            assert_eq!(res.feedback.as_deref(), Some("needs work"));
            assert_eq!(res.rounds_used, 1);
        }
        other => panic!("unexpected {:?}", other),
    }
}

#[test]
fn finished_delegation_is_recorded_and_logged() {
    let mut o: Orchestrator<u32> = Orchestrator::new();
    o.add_agent("ceo", "r", "d", 0);
    o.add_agent("dev", "r", "d", 1);
    let long = format!("{}é tail", "x".repeat(DELEGATION_RESULT_BYTES - 1));
    let (record, out) = o.finish_delegation("ceo", "dev", "build it", Ok(long.clone()), "t0".to_string());
    match record {
        DelegationRecord::Completed(t) => {
            assert_eq!(t.len(), DELEGATION_RESULT_BYTES - 1);
            assert!(t.chars().all(|c| c == 'x'));
        }
        other => panic!("unexpected {:?}", other),
    }
    assert_eq!(out, Ok(long.clone()));
    assert_eq!(o.message_log().len(), 1);
    let m = &o.message_log()[0];
    assert_eq!(m.from, "ceo");
    assert_eq!(m.to, "dev");
    assert_eq!(m.content, "build it");
    assert_eq!(m.response.as_deref(), Some(long.as_str()));
    assert_eq!(m.timestamp, "t0");

    let (record, out) = o.finish_delegation("ceo", "dev", "again", Err("timeout".to_string()), "t1".to_string());
    match record {
        DelegationRecord::Failed(e) => assert_eq!(e, "timeout"),
        other => panic!("unexpected {:?}", other),
    }
    assert_eq!(out, Err("timeout".to_string()));
    assert_eq!(o.message_log().len(), 1);
}
